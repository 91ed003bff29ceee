use filesystem::{AccountId, Config, Error, Event, GenesisConfig, INode, Pallet, ALL, DIRECTORY, EXECUTE, READ, REGULAR, WRITE};

const ALICE: AccountId = [7; 32];
const BOB: AccountId = [8; 32];

fn config() -> Config {
    Config { max_file_size: 100, max_fs_size: 1000, max_num_of_files: 10, max_filename: 8 }
}

fn fresh() -> Pallet {
    GenesisConfig::default().build(config())
}

fn name(s: &str) -> Vec<u8> {
    s.as_bytes().to_vec()
}

fn names_in(p: &Pallet, dir: u32) -> Vec<(String, u32)> {
    p.directory(dir)
        .expect("a directory")
        .iter()
        .map(|(n, i)| (String::from_utf8(n.clone()).unwrap(), *i))
        .collect()
}

/// A file system with a root (inode 0) owned by ALICE and directory "home"
/// (inode 1) in it.
fn with_home() -> Pallet {
    let mut p = fresh();
    assert_eq!(p.create_dir(ALICE, name("home"), 0, 100, 5), Ok(Event::DirectoryCreated(ALICE, name("home"), 1)));
    p
}

#[test]
fn genesis_default_starts_from_zero() {
    let g = GenesisConfig::default();
    assert_eq!(g.start_fs_size, 0);
    assert_eq!(g.start_inode_num, 0);
}

#[test]
fn genesis_build_sets_counter_and_size() {
    let p = GenesisConfig { start_fs_size: 40, start_inode_num: 3 }.build(config());
    assert_eq!(p.current_inode(), 3);
    assert_eq!(p.current_fs_size(), 40);
    assert!(p.free_inodes().is_empty());
    assert!(p.directory(0).is_none());
    assert!(p.file(0).is_none());
    assert_eq!(p.config(), config());
}

#[test]
fn first_directory_creation_makes_the_root() {
    let p = with_home();
    let root = p.inode(0);
    assert_eq!(root.owner, ALICE);
    assert_eq!(root.file_mode, DIRECTORY);
    assert_eq!((root.owner_permissions, root.group_permissions, root.others_permissions), (ALL, ALL, ALL));
    assert_eq!(root.created, 100);
    assert_eq!(root.block, 5);
    assert_eq!(names_in(&p, 0), vec![("home".to_string(), 1)]);
    assert_eq!(p.current_inode(), 2);
}

#[test]
fn new_directory_inode_and_listing() {
    let p = with_home();
    let home = p.inode(1);
    assert_eq!(home.owner, ALICE);
    assert_eq!(home.file_mode, DIRECTORY);
    assert_eq!(
        (home.owner_permissions, home.group_permissions, home.others_permissions),
        (READ | WRITE | EXECUTE, READ | WRITE | EXECUTE, READ | EXECUTE)
    );
    assert_eq!((home.modified, home.changed, home.created, home.block), (100, 100, 100, 5));
    assert!(p.directory(1).unwrap().is_empty());
}

#[test]
fn creation_touches_the_parent() {
    let mut p = with_home();
    assert!(p.create_dir(ALICE, name("docs"), 1, 300, 9).is_ok());
    let home = p.inode(1);
    assert_eq!((home.modified, home.changed, home.created), (300, 300, 100));
}

#[test]
fn root_stays_when_the_first_creation_is_refused() {
    let mut p = fresh();
    assert_eq!(p.create_dir(ALICE, name("x"), 5, 100, 1), Err(Error::IncorrectParentInode));
    assert_eq!(p.current_inode(), 1);
    assert_eq!(p.inode(0).owner, ALICE);
    assert!(p.directory(0).unwrap().is_empty());
}

#[test]
fn no_root_when_the_counter_starts_elsewhere() {
    let mut p = GenesisConfig { start_fs_size: 0, start_inode_num: 4 }.build(config());
    assert_eq!(p.create_dir(ALICE, name("x"), 0, 100, 1), Err(Error::IncorrectParentInode));
    assert!(p.directory(0).is_none());
    assert_eq!(p.current_inode(), 4);
}

#[test]
fn listings_are_sorted_by_name() {
    let mut p = with_home();
    for (n, t) in [("b", 2), ("a", 3), ("c", 4), ("ab", 5)] {
        assert_eq!(p.create_dir(ALICE, name(n), 1, 200, 6), Ok(Event::DirectoryCreated(ALICE, name(n), t)));
    }
    assert_eq!(
        names_in(&p, 1),
        vec![("a".to_string(), 3), ("ab".to_string(), 5), ("b".to_string(), 2), ("c".to_string(), 4)]
    );
}

#[test]
fn duplicate_directory_name_is_refused() {
    let mut p = with_home();
    assert_eq!(p.create_dir(ALICE, name("home"), 0, 200, 6), Err(Error::DirectoryAlreadyExists));
    assert_eq!(names_in(&p, 0), vec![("home".to_string(), 1)]);
    assert_eq!(p.current_inode(), 2);
}

#[test]
fn too_long_directory_name_is_refused() {
    let mut p = with_home();
    assert_eq!(p.create_dir(ALICE, name("123456789"), 0, 200, 6), Err(Error::NameIsTooBig));
    assert!(p.create_dir(ALICE, name("12345678"), 0, 200, 6).is_ok());
}

#[test]
fn inode_limit_is_enforced() {
    let cfg = Config { max_num_of_files: 2, ..config() };
    let mut p = GenesisConfig::default().build(cfg);
    assert!(p.create_dir(ALICE, name("a"), 0, 1, 1).is_ok());
    assert_eq!(p.create_dir(ALICE, name("b"), 0, 1, 1), Err(Error::TooManyFiles));
    assert_eq!(p.create_file(ALICE, name("c"), vec![1], 0, 1, 1), Err(Error::TooManyFiles));
    assert_eq!(p.current_inode(), 2);
    assert!(p.delete_dir_by_name(ALICE, name("a"), 0, 2).is_ok());
    assert_eq!(p.create_file(ALICE, name("c"), vec![1], 0, 1, 1), Ok(Event::FileCreated(ALICE, name("c"), 1, 0)));
}

#[test]
fn a_limit_of_zero_still_gets_the_root() {
    let cfg = Config { max_num_of_files: 0, ..config() };
    let mut p = GenesisConfig::default().build(cfg);
    assert_eq!(p.create_dir(ALICE, name("a"), 0, 1, 1), Err(Error::TooManyFiles));
    assert_eq!(p.current_inode(), 1);
    assert_eq!(p.inode(0).owner, ALICE);
}

#[test]
fn others_may_not_create_in_a_directory_they_cannot_write() {
    let mut p = with_home();
    assert_eq!(p.create_dir(BOB, name("x"), 1, 200, 6), Err(Error::NotEnoughPermissions));
    assert_eq!(p.create_file(BOB, name("x"), vec![], 1, 200, 6), Err(Error::NotEnoughPermissions));
    // the root is writable by everybody
    assert_eq!(p.create_dir(BOB, name("bob"), 0, 200, 6), Ok(Event::DirectoryCreated(BOB, name("bob"), 2)));
}

#[test]
fn deleting_a_directory_frees_its_inode() {
    let mut p = with_home();
    assert_eq!(p.delete_dir_by_name(ALICE, name("home"), 0, 400), Ok(Event::DirectoryDeleted(ALICE, name("home"), 1)));
    assert!(p.directory(0).unwrap().is_empty());
    assert!(p.directory(1).is_none());
    assert_eq!(p.inode(1), INode::default());
    assert_eq!(p.free_inodes(), &vec![1]);
    assert_eq!(p.current_inode(), 2);
    assert_eq!((p.inode(0).modified, p.inode(0).changed), (400, 400));
}

#[test]
fn a_freed_inode_is_taken_next() {
    let mut p = with_home();
    assert!(p.create_dir(ALICE, name("tmp"), 0, 200, 6).is_ok());
    assert!(p.delete_dir_by_name(ALICE, name("home"), 0, 300).is_ok());
    assert!(p.delete_dir_by_name(ALICE, name("tmp"), 0, 300).is_ok());
    assert_eq!(p.free_inodes(), &vec![1, 2]);
    assert_eq!(p.create_dir(ALICE, name("x"), 0, 400, 7), Ok(Event::DirectoryCreated(ALICE, name("x"), 2)));
    assert_eq!(p.create_file(ALICE, name("y"), vec![1, 2], 0, 400, 7), Ok(Event::FileCreated(ALICE, name("y"), 1, 0)));
    assert!(p.free_inodes().is_empty());
    assert_eq!(p.current_inode(), 3);
    assert_eq!(p.create_dir(ALICE, name("z"), 0, 400, 7), Ok(Event::DirectoryCreated(ALICE, name("z"), 3)));
}

#[test]
fn directory_deletion_errors() {
    let mut p = with_home();
    assert!(p.create_dir(ALICE, name("sub"), 1, 200, 6).is_ok());
    assert!(p.create_file(ALICE, name("f"), vec![1], 0, 200, 6).is_ok());
    assert_eq!(p.delete_dir_by_name(ALICE, name("home"), 9, 300), Err(Error::IncorrectParentInode));
    assert_eq!(p.delete_dir_by_name(ALICE, name("nope"), 0, 300), Err(Error::NoDirectoryWithSuchName));
    assert_eq!(p.delete_dir_by_name(ALICE, name("home"), 0, 300), Err(Error::DirIsNotEmpty));
    assert_eq!(p.delete_dir_by_name(ALICE, name("f"), 0, 300), Err(Error::NotDirectory));
    assert_eq!(p.delete_dir_by_name(BOB, name("home"), 0, 300), Err(Error::NotEnoughPermissions));
    assert_eq!(p.delete_dir_by_name(BOB, name("sub"), 1, 300), Err(Error::NotEnoughPermissions));
    assert_eq!(names_in(&p, 0), vec![("f".to_string(), 3), ("home".to_string(), 1)]);
    assert_eq!(p.inode(0).modified, 200);
}

#[test]
fn creating_a_file_stores_its_contents() {
    let mut p = with_home();
    let content = vec![1u8, 2, 3, 4, 5];
    assert_eq!(p.create_file(ALICE, name("f"), content.clone(), 1, 500, 8), Ok(Event::FileCreated(ALICE, name("f"), 2, 1)));
    assert_eq!(p.file(2), Some(&content));
    let f = p.inode(2);
    assert_eq!(f.file_mode, REGULAR);
    assert_eq!(
        (f.owner_permissions, f.group_permissions, f.others_permissions),
        (READ | WRITE, READ | WRITE, READ)
    );
    assert_eq!(p.current_fs_size(), 5);
    assert_eq!(names_in(&p, 1), vec![("f".to_string(), 2)]);
    assert!(p.directory(2).is_none());
    assert_eq!(p.current_inode(), 3);
}

#[test]
fn file_creation_does_not_make_a_root() {
    let mut p = fresh();
    assert_eq!(p.create_file(ALICE, name("f"), vec![], 0, 1, 1), Err(Error::IncorrectParentInode));
    assert_eq!(p.current_inode(), 0);
    assert!(p.directory(0).is_none());
}

#[test]
fn file_creation_errors() {
    let mut p = with_home();
    assert!(p.create_file(ALICE, name("f"), vec![0; 10], 0, 200, 6).is_ok());
    assert_eq!(p.create_file(ALICE, name("f"), vec![], 0, 200, 6), Err(Error::FileAlreadyExists));
    assert_eq!(p.create_file(ALICE, name("home"), vec![], 0, 200, 6), Err(Error::FileAlreadyExists));
    assert_eq!(p.create_file(ALICE, name("g"), vec![0; 101], 0, 200, 6), Err(Error::FileIsTooBig));
    assert_eq!(p.create_file(ALICE, name("123456789"), vec![], 0, 200, 6), Err(Error::NameIsTooBig));
    assert_eq!(p.create_file(ALICE, name("g"), vec![], 4, 200, 6), Err(Error::IncorrectParentInode));
    assert!(p.create_file(ALICE, name("g"), vec![0; 100], 0, 200, 6).is_ok());
    assert_eq!(p.current_fs_size(), 110);
}

#[test]
fn no_creation_takes_the_total_past_the_limit() {
    let mut p = GenesisConfig { start_fs_size: 990, start_inode_num: 0 }.build(config());
    assert!(p.create_dir(ALICE, name("d"), 0, 1, 1).is_ok());
    assert_eq!(p.create_file(ALICE, name("a"), vec![0; 20], 0, 1, 1), Err(Error::NoSpace));
    assert!(p.create_file(ALICE, name("a"), vec![0; 10], 0, 1, 1).is_ok());
    assert_eq!(p.current_fs_size(), 1000);
    assert_eq!(p.create_file(ALICE, name("b"), vec![1], 0, 1, 1), Err(Error::NoSpace));
    assert!(p.create_file(ALICE, name("b"), vec![], 0, 1, 1).is_ok());
    assert!(p.delete_file_by_name(ALICE, name("a"), 0, 2).is_ok());
    assert_eq!(p.current_fs_size(), 990);
    assert!(p.create_file(ALICE, name("c"), vec![0; 10], 0, 1, 1).is_ok());
}

#[test]
fn a_total_that_starts_past_the_limit_admits_no_file() {
    let mut p = GenesisConfig { start_fs_size: 2000, start_inode_num: 0 }.build(config());
    assert!(p.create_dir(ALICE, name("d"), 0, 1, 1).is_ok());
    assert_eq!(p.create_file(ALICE, name("a"), vec![], 0, 1, 1), Err(Error::NoSpace));
}

#[test]
fn with_a_limit_of_zero_no_byte_fits() {
    let cfg = Config { max_fs_size: 0, ..config() };
    let mut p = GenesisConfig::default().build(cfg);
    assert!(p.create_dir(ALICE, name("d"), 0, 1, 1).is_ok());
    assert_eq!(p.create_file(ALICE, name("a"), vec![1], 0, 1, 1), Err(Error::NoSpace));
    assert!(p.create_file(ALICE, name("b"), vec![], 0, 1, 1).is_ok());
}

#[test]
fn deleting_a_file_takes_its_size_off_the_total() {
    let mut p = with_home();
    assert!(p.create_file(ALICE, name("f"), vec![9; 30], 1, 200, 6).is_ok());
    assert_eq!(p.current_fs_size(), 30);
    assert_eq!(p.delete_file_by_name(ALICE, name("f"), 1, 300), Ok(Event::FileDeleted(ALICE, name("f"), 2)));
    assert!(p.file(2).is_none());
    assert_eq!(p.inode(2), INode::default());
    assert!(p.directory(1).unwrap().is_empty());
    assert_eq!(p.free_inodes(), &vec![2]);
    assert_eq!(p.current_fs_size(), 0);
    assert_eq!((p.inode(1).modified, p.inode(1).changed), (300, 300));
}

#[test]
fn file_deletion_errors() {
    let mut p = with_home();
    assert!(p.create_file(ALICE, name("f"), vec![1], 0, 200, 6).is_ok());
    assert_eq!(p.delete_file_by_name(ALICE, name("f"), 1, 300), Err(Error::NoFileWithSuchName));
    assert_eq!(p.delete_file_by_name(ALICE, name("f"), 7, 300), Err(Error::IncorrectParentInode));
    assert_eq!(p.delete_file_by_name(ALICE, name("home"), 0, 300), Err(Error::NotFile));
    assert_eq!(p.delete_file_by_name(BOB, name("f"), 0, 300), Err(Error::NotEnoughPermissions));
    assert_eq!(p.delete_file_by_name(BOB, name("f"), 1, 300), Err(Error::NotEnoughPermissions));
    assert_eq!(p.file(2), Some(&vec![1]));
}

#[test]
fn a_refused_request_changes_nothing() {
    let mut p = with_home();
    assert!(p.create_file(ALICE, name("f"), vec![1, 2], 1, 200, 6).is_ok());
    let before = (names_in(&p, 0), names_in(&p, 1), p.inode(0), p.inode(1), p.inode(2), p.current_inode(), p.free_inodes().clone(), p.current_fs_size());
    assert!(p.create_dir(BOB, name("x"), 1, 900, 9).is_err());
    assert!(p.create_file(ALICE, name("f"), vec![], 1, 900, 9).is_err());
    assert!(p.delete_dir_by_name(ALICE, name("f"), 1, 900).is_err());
    assert!(p.delete_file_by_name(ALICE, name("home"), 0, 900).is_err());
    let after = (names_in(&p, 0), names_in(&p, 1), p.inode(0), p.inode(1), p.inode(2), p.current_inode(), p.free_inodes().clone(), p.current_fs_size());
    assert_eq!(before, after);
}

#[test]
fn create_then_delete_directory_restores_the_listing() {
    let mut p = with_home();
    assert!(p.create_dir(ALICE, name("a"), 1, 200, 6).is_ok());
    assert!(p.create_dir(ALICE, name("c"), 1, 200, 6).is_ok());
    let listing = names_in(&p, 1);
    let counter = p.current_inode();
    assert_eq!(p.create_dir(ALICE, name("b"), 1, 300, 7), Ok(Event::DirectoryCreated(ALICE, name("b"), 4)));
    assert_eq!(p.delete_dir_by_name(ALICE, name("b"), 1, 400), Ok(Event::DirectoryDeleted(ALICE, name("b"), 4)));
    assert_eq!(names_in(&p, 1), listing);
    assert!(p.directory(4).is_none());
    assert_eq!(p.free_inodes(), &vec![4]);
    assert_eq!(p.current_inode(), counter + 1);
}

#[test]
fn create_then_delete_file_restores_the_size() {
    let mut p = with_home();
    let size = p.current_fs_size();
    assert!(p.create_file(ALICE, name("f"), vec![0; 7], 1, 300, 7).is_ok());
    assert!(p.delete_file_by_name(ALICE, name("f"), 1, 400).is_ok());
    assert!(p.directory(1).unwrap().is_empty());
    assert!(p.file(2).is_none());
    assert_eq!(p.current_fs_size(), size);
}

#[test]
fn others_cannot_delete_what_they_did_not_create() {
    let mut p = fresh();
    assert!(p.create_dir(ALICE, name("a"), 0, 1, 1).is_ok());
    assert!(p.create_file(ALICE, name("f"), vec![1], 0, 1, 1).is_ok());
    assert_eq!(p.delete_dir_by_name(BOB, name("a"), 0, 2), Err(Error::NotEnoughPermissions));
    assert_eq!(p.delete_file_by_name(BOB, name("f"), 0, 2), Err(Error::NotEnoughPermissions));
    assert!(p.delete_dir_by_name(ALICE, name("a"), 0, 2).is_ok());
    assert!(p.delete_file_by_name(ALICE, name("f"), 0, 2).is_ok());
}

#[test]
fn empty_names_are_names_too() {
    let mut p = fresh();
    assert_eq!(p.create_dir(ALICE, vec![], 0, 1, 1), Ok(Event::DirectoryCreated(ALICE, vec![], 1)));
    assert_eq!(p.create_file(ALICE, vec![], vec![], 0, 1, 1), Err(Error::FileAlreadyExists));
    assert!(p.create_file(ALICE, name("a"), vec![], 0, 1, 1).is_ok());
    assert_eq!(names_in(&p, 0), vec![("".to_string(), 1), ("a".to_string(), 2)]);
}

#[test]
fn a_deleted_file_leaves_no_trace_in_the_total() {
    let mut p = fresh();
    assert!(p.create_dir(ALICE, vec![b'd'], 0, 1, 1).is_ok());
    assert_eq!(p.create_file(ALICE, vec![b'f'], vec![1, 2, 3], 0, 1, 1), Ok(Event::FileCreated(ALICE, vec![b'f'], 2, 0)));
    assert_eq!(p.current_fs_size(), 3);
    assert_eq!(p.delete_file_by_name(ALICE, vec![b'f'], 0, 2), Ok(Event::FileDeleted(ALICE, vec![b'f'], 2)));
    assert_eq!(p.current_fs_size(), 0);
    assert!(p.file(2).is_none());
    assert_eq!(p.inode(2), INode::default());
    assert_eq!(names_in(&p, 0), vec![("d".to_string(), 1)]);
    assert_eq!(p.free_inodes(), &vec![2]);
}

#[test]
fn stored_files_and_names_stay_within_their_limits() {
    let mut p = with_home();
    let _ = p.create_file(ALICE, name("big"), vec![0; 101], 1, 2, 2);
    let _ = p.create_dir(ALICE, name("far-too-long"), 1, 2, 2);
    assert!(p.create_file(ALICE, name("12345678"), vec![0; 100], 1, 2, 2).is_ok());
    for (n, i) in p.directory(1).unwrap() {
        assert!(n.len() <= 8);
        assert!(p.file(*i).unwrap().len() <= 100);
    }
    assert_eq!(names_in(&p, 1), vec![("12345678".to_string(), 2)]);
}
