//! A file system kept as chain storage: inodes with owners, times and
//! permission masks, directories whose listings are sorted by name, files
//! with their contents, an inode counter with a stack of freed inodes, and
//! the four requests that change them.

pub mod inode;
pub mod laws;
pub mod listing;
pub mod model;
pub mod names;
pub mod outcomes;
pub mod pallet;

pub use inode::{AccountId, INode, INodeStruct, ALL, DIRECTORY, EXECUTE, READ, REGULAR, WRITE};
pub use pallet::{Config, Error, Event, GenesisConfig, Pallet};
