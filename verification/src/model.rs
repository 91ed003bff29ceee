use vstd::prelude::*;

use crate::inode::{default_inode, AccountId, INode, INodeStruct, ALL, DIRECTORY, EXECUTE, READ, REGULAR, WRITE};
use crate::listing::{count_before, position_of_name, sorted_by_name};
use crate::pallet::{Config, Error};

verus! {

/// The storage of the file system as mathematical values: the inodes, the
/// listing of each directory, the contents of each file, the inode counter,
/// the stack of freed inodes and the total size of the files.
#[verifier::ext_equal]
pub struct FsView {
    pub config: Config,
    pub inodes: Map<u32, INode>,
    pub directories: Map<u32, Seq<(Seq<u8>, u32)>>,
    pub files: Map<u32, Seq<u8>>,
    pub current_inode: u32,
    pub free_inodes: Seq<u32>,
    pub current_fs_size: u32,
}

/// The inode of a new root directory.
pub open spec fn root_inode(who: AccountId, now: u64, block: u64) -> INode {
    INode::spec_new(who, now, now, now, block, DIRECTORY, ALL, ALL, ALL)
}

/// The inode of a new directory: everything for owner and group, read and
/// traverse for the others.
pub open spec fn dir_inode(who: AccountId, now: u64, block: u64) -> INode {
    INode::spec_new(who, now, now, now, block, DIRECTORY, ALL, ALL, READ | EXECUTE)
}

/// The inode of a new regular file: read and write for owner and group, read
/// for the others.
pub open spec fn file_inode(who: AccountId, now: u64, block: u64) -> INode {
    INode::spec_new(who, now, now, now, block, REGULAR, READ | WRITE, READ | WRITE, READ)
}

/// The size of file `k`: its number of bytes, or zero if it is not stored.
pub open spec fn file_size(files: Map<u32, Seq<u8>>, k: u32) -> nat {
    if files.contains_key(k) {
        files[k].len()
    } else {
        0
    }
}

/// The total size of the files stored under the numbers below `n`.
pub open spec fn size_below(files: Map<u32, Seq<u8>>, n: nat) -> nat
    decreases n,
{
    if n == 0 {
        0
    } else {
        size_below(files, (n - 1) as nat) + file_size(files, (n - 1) as u32)
    }
}

/// The number of inode numbers: every `u32`.
pub open spec fn inode_numbers() -> nat {
    0x1_0000_0000nat
}

impl FsView {
    /// A storage read of an inode: the stored one, or the all-zero inode.
    pub open spec fn inode(self, k: u32) -> INode {
        if self.inodes.contains_key(k) {
            self.inodes[k]
        } else {
            default_inode()
        }
    }

    /// A storage read of a listing: the stored one, or the empty listing.
    pub open spec fn listing(self, k: u32) -> Seq<(Seq<u8>, u32)> {
        if self.directories.contains_key(k) {
            self.directories[k]
        } else {
            Seq::empty()
        }
    }

    /// A storage read of a file's contents: the stored bytes, or none.
    pub open spec fn file(self, k: u32) -> Seq<u8> {
        if self.files.contains_key(k) {
            self.files[k]
        } else {
            Seq::empty()
        }
    }

    /// The inode that the next creation takes: the most recently freed one,
    /// or else the counter.
    pub open spec fn next_inode(self) -> u32 {
        if self.free_inodes.len() == 0 {
            self.current_inode
        } else {
            self.free_inodes.last()
        }
    }

    /// The total size of the stored files.
    pub open spec fn files_size(self) -> nat {
        size_below(self.files, inode_numbers())
    }

    /// Before a directory is created, a file system whose counter is still
    /// zero gets its root directory, inode 0, owned by the caller.
    pub open spec fn with_root(self, who: AccountId, now: u64, block: u64) -> FsView {
        if self.current_inode == 0 {
            FsView {
                inodes: self.inodes.insert(0, root_inode(who, now, block)),
                directories: self.directories.insert(0, Seq::empty()),
                current_inode: 1,
                ..self
            }
        } else {
            self
        }
    }

    /// Marks inode `n` as taken: popped from the free stack when it is on
    /// top of it, else the counter moves past it.
    pub open spec fn take_inode(self, n: u32) -> FsView {
        if self.free_inodes.len() > 0 && n == self.free_inodes.last() {
            FsView { free_inodes: self.free_inodes.drop_last(), ..self }
        } else {
            FsView { current_inode: (n + 1) as u32, ..self }
        }
    }

    /// Sets the modified and changed times of inode `k` (stored or not).
    pub open spec fn touch(self, k: u32, now: u64) -> FsView {
        FsView {
            inodes: self.inodes.insert(k, INodeStruct { modified: now, changed: now, ..self.inode(k) }),
            ..self
        }
    }

    /// Adds the entry `(name, n)` to the listing of `parent`, where its name
    /// sorts.
    pub open spec fn add_entry(self, parent: u32, name: Seq<u8>, n: u32) -> FsView {
        let l = self.listing(parent);
        FsView {
            directories: self.directories.insert(parent, l.insert(count_before(l, name) as int, (name, n))),
            ..self
        }
    }

    /// Removes the entry at index `i` of the listing of `parent`.
    pub open spec fn drop_entry(self, parent: u32, i: int) -> FsView {
        FsView { directories: self.directories.insert(parent, self.listing(parent).remove(i)), ..self }
    }

    /// The checks of a directory creation, in their order, on a file system
    /// that has its root: the inode that the new directory gets, or the
    /// error of the first check that fails.
    pub open spec fn check_create_dir(self, who: AccountId, name: Seq<u8>, parent: u32) -> Result<u32, Error> {
        let n = self.next_inode();
        if self.config.max_num_of_files <= n {
            Err(Error::TooManyFiles)
        } else if self.config.max_filename < name.len() {
            Err(Error::NameIsTooBig)
        } else if !self.directories.contains_key(parent) {
            Err(Error::IncorrectParentInode)
        } else if !self.inode(parent).can_write(who) {
            Err(Error::NotEnoughPermissions)
        } else if position_of_name(self.listing(parent), name) is Some {
            Err(Error::DirectoryAlreadyExists)
        } else {
            Ok(n)
        }
    }

    /// What a directory creation answers.
    pub open spec fn create_dir_result(self, who: AccountId, name: Seq<u8>, parent: u32, now: u64, block: u64) -> Result<u32, Error> {
        self.with_root(who, now, block).check_create_dir(who, name, parent)
    }

    /// Stores inode `ino` as `n`, lists it as `name` in `parent`, sets the
    /// parent's times and marks `n` as taken.
    pub open spec fn link(self, name: Seq<u8>, parent: u32, n: u32, ino: INode, now: u64) -> FsView {
        let s1 = FsView { inodes: self.inodes.insert(n, ino), ..self };
        s1.add_entry(parent, name, n).touch(parent, now).take_inode(n)
    }

    /// Adds directory `n` named `name` to `parent`, with an empty listing.
    pub open spec fn add_dir(self, who: AccountId, name: Seq<u8>, parent: u32, n: u32, now: u64, block: u64) -> FsView {
        let s = self.link(name, parent, n, dir_inode(who, now, block), now);
        FsView { directories: s.directories.insert(n, Seq::empty()), ..s }
    }

    /// The file system after a directory creation: it has its root in any
    /// case, and the new directory when the checks pass.
    pub open spec fn create_dir_state(self, who: AccountId, name: Seq<u8>, parent: u32, now: u64, block: u64) -> FsView {
        let s = self.with_root(who, now, block);
        match s.check_create_dir(who, name, parent) {
            Ok(n) => s.add_dir(who, name, parent, n, now, block),
            Err(_) => s,
        }
    }

    /// The checks of a file creation, in their order: the inode that the new
    /// file gets, or the error of the first check that fails.
    pub open spec fn create_file_result(self, who: AccountId, name: Seq<u8>, content: Seq<u8>, parent: u32) -> Result<u32, Error> {
        let n = self.next_inode();
        if self.config.max_num_of_files <= n {
            Err(Error::TooManyFiles)
        } else if self.config.max_fs_size < self.current_fs_size + content.len() {
            Err(Error::NoSpace)
        } else if self.config.max_file_size < content.len() {
            Err(Error::FileIsTooBig)
        } else if self.config.max_filename < name.len() {
            Err(Error::NameIsTooBig)
        } else if !self.directories.contains_key(parent) {
            Err(Error::IncorrectParentInode)
        } else if !self.inode(parent).can_write(who) {
            Err(Error::NotEnoughPermissions)
        } else if position_of_name(self.listing(parent), name) is Some {
            Err(Error::FileAlreadyExists)
        } else {
            Ok(n)
        }
    }

    /// Adds file `n` named `name` with `content` to `parent`, and its size to
    /// the total.
    pub open spec fn add_file(self, who: AccountId, name: Seq<u8>, content: Seq<u8>, parent: u32, n: u32, now: u64, block: u64) -> FsView {
        let s = self.link(name, parent, n, file_inode(who, now, block), now);
        FsView {
            files: s.files.insert(n, content),
            current_fs_size: (s.current_fs_size + content.len()) as u32,
            ..s
        }
    }

    /// The file system after a file creation.
    pub open spec fn create_file_state(self, who: AccountId, name: Seq<u8>, content: Seq<u8>, parent: u32, now: u64, block: u64) -> FsView {
        match self.create_file_result(who, name, content, parent) {
            Ok(n) => self.add_file(who, name, content, parent, n, now, block),
            Err(_) => self,
        }
    }

    /// The checks of a directory deletion, in their order: the inode of the
    /// deleted directory, or the error of the first check that fails.
    pub open spec fn delete_dir_result(self, who: AccountId, name: Seq<u8>, parent: u32) -> Result<u32, Error> {
        if !self.directories.contains_key(parent) {
            Err(Error::IncorrectParentInode)
        } else if !self.inode(parent).can_write(who) {
            Err(Error::NotEnoughPermissions)
        } else {
            match position_of_name(self.listing(parent), name) {
                None => Err(Error::NoDirectoryWithSuchName),
                Some(i) => {
                    let t = self.listing(parent)[i].1;
                    if !self.inode(t).can_write(who) {
                        Err(Error::NotEnoughPermissions)
                    } else if self.inode(t).file_mode != DIRECTORY {
                        Err(Error::NotDirectory)
                    } else if self.listing(t).len() != 0 {
                        Err(Error::DirIsNotEmpty)
                    } else {
                        Ok(t)
                    }
                },
            }
        }
    }

    /// Removes the entry at index `i` of `parent`'s listing, which names
    /// inode `t`, and frees `t`; `remove_listing` and `remove_file` say
    /// whether `t`'s listing or `t`'s contents go too.
    pub open spec fn unlink(self, parent: u32, i: int, t: u32, now: u64, remove_listing: bool, remove_file: bool) -> FsView {
        let s1 = self.drop_entry(parent, i);
        let s2 = FsView {
            directories: if remove_listing { s1.directories.remove(t) } else { s1.directories },
            files: if remove_file { s1.files.remove(t) } else { s1.files },
            ..s1
        };
        let s3 = s2.touch(parent, now);
        FsView { inodes: s3.inodes.remove(t), free_inodes: s3.free_inodes.push(t), ..s3 }
    }

    /// The file system after a directory deletion.
    pub open spec fn delete_dir_state(self, who: AccountId, name: Seq<u8>, parent: u32, now: u64) -> FsView {
        match self.delete_dir_result(who, name, parent) {
            Ok(t) => self.unlink(parent, position_of_name(self.listing(parent), name).unwrap(), t, now, true, false),
            Err(_) => self,
        }
    }

    /// The checks of a file deletion, in their order: the inode of the
    /// deleted file, or the error of the first check that fails.
    pub open spec fn delete_file_result(self, who: AccountId, name: Seq<u8>, parent: u32) -> Result<u32, Error> {
        if !self.directories.contains_key(parent) {
            Err(Error::IncorrectParentInode)
        } else if !self.inode(parent).can_write(who) {
            Err(Error::NotEnoughPermissions)
        } else {
            match position_of_name(self.listing(parent), name) {
                None => Err(Error::NoFileWithSuchName),
                Some(i) => {
                    let t = self.listing(parent)[i].1;
                    if !self.inode(t).can_write(who) {
                        Err(Error::NotEnoughPermissions)
                    } else if self.inode(t).file_mode != REGULAR {
                        Err(Error::NotFile)
                    } else {
                        Ok(t)
                    }
                },
            }
        }
    }

    /// The file system after a file deletion: the file's size leaves the
    /// total.
    pub open spec fn delete_file_state(self, who: AccountId, name: Seq<u8>, parent: u32, now: u64) -> FsView {
        match self.delete_file_result(who, name, parent) {
            Ok(t) => {
                let s = self.unlink(parent, position_of_name(self.listing(parent), name).unwrap(), t, now, false, true);
                FsView { current_fs_size: (self.current_fs_size - file_size(self.files, t)) as u32, ..s }
            },
            Err(_) => self,
        }
    }

    // The consistency of the storage, in parts.

    /// Every listing is sorted by name.
    pub open spec fn listings_sorted(self) -> bool {
        forall|d: u32| #[trigger] self.directories.contains_key(d) ==> sorted_by_name(self.directories[d])
    }

    /// The free stack holds each inode once, each below the counter.
    pub open spec fn free_stack_valid(self) -> bool {
        &&& self.free_inodes.no_duplicates()
        &&& forall|i: int| 0 <= i < self.free_inodes.len() ==> #[trigger] self.free_inodes[i] < self.current_inode
    }

    /// Finitely many inodes are stored, each below the counter and not free,
    /// and each but the root below the limit on inodes.
    pub open spec fn inodes_allocated(self) -> bool {
        &&& self.inodes.dom().finite()
        &&& forall|k: u32| #[trigger] self.inodes.contains_key(k) ==> k < self.current_inode && !self.free_inodes.contains(k)
        &&& forall|k: u32| #[trigger] self.inodes.contains_key(k) ==> k == 0 || k < self.config.max_num_of_files
    }

    /// Every stored file is within the limit on the size of a file, and
    /// every name in a listing within the limit on the length of a name.
    pub open spec fn within_limits(self) -> bool {
        &&& forall|k: u32| #[trigger] self.files.contains_key(k) ==> self.files[k].len() <= self.config.max_file_size
        &&& forall|d: u32, j: int|
            self.directories.contains_key(d) && 0 <= j < self.directories[d].len() ==> (
            #[trigger] self.directories[d][j]).0.len() <= self.config.max_filename
    }

    /// The total size counts at least the stored files.
    pub open spec fn size_counted(self) -> bool {
        self.files_size() <= self.current_fs_size
    }

    /// Every listing belongs to a stored directory inode, every file's
    /// contents to a stored regular inode.
    pub open spec fn kinds_match(self) -> bool {
        &&& forall|k: u32| #[trigger] self.directories.contains_key(k) ==> self.inodes.contains_key(k) && self.inodes[k].file_mode == DIRECTORY
        &&& forall|k: u32| #[trigger] self.files.contains_key(k) ==> self.inodes.contains_key(k) && self.inodes[k].file_mode == REGULAR
    }

    /// Every entry names a stored inode other than its own directory.
    pub open spec fn entries_stored(self) -> bool {
        forall|d: u32, j: int|
            self.directories.contains_key(d) && 0 <= j < self.directories[d].len() ==> {
                let t = #[trigger] self.directories[d][j].1;
                self.inodes.contains_key(t) && t != d
            }
    }

    /// No inode is named by two entries.
    pub open spec fn entries_unique(self) -> bool {
        forall|d1: u32, j1: int, d2: u32, j2: int|
            self.directories.contains_key(d1) && self.directories.contains_key(d2) && 0 <= j1 < self.directories[d1].len()
                && 0 <= j2 < self.directories[d2].len() && (#[trigger] self.directories[d1][j1]).1 == (#[trigger] self.directories[d2][j2]).1
                ==> d1 == d2 && j1 == j2
    }

    /// The storage is consistent: what every operation keeps.
    pub open spec fn wf(self) -> bool {
        &&& self.listings_sorted()
        &&& self.free_stack_valid()
        &&& self.inodes_allocated()
        &&& self.kinds_match()
        &&& self.entries_stored()
        &&& self.entries_unique()
        &&& self.size_counted()
        &&& self.within_limits()
    }
}

} // verus!
