use filesystem::{AccountId, INode, INodeStruct, ALL, DIRECTORY, EXECUTE, READ, REGULAR, WRITE};

fn account(b: u8) -> AccountId {
    [b; 32]
}

#[test]
fn permission_constants() {
    assert_eq!(EXECUTE, 1);
    assert_eq!(WRITE, 2);
    assert_eq!(READ, 4);
    assert_eq!(ALL, EXECUTE | WRITE | READ);
    assert_eq!(REGULAR, 0);
    assert_eq!(DIRECTORY, 1);
}

#[test]
fn new_keeps_every_field() {
    let i: INode = INodeStruct::new(account(5), 10, 11, 12, 13, DIRECTORY, 7, 6, 4);
    assert_eq!(i.owner, account(5));
    assert_eq!(i.modified, 10);
    assert_eq!(i.changed, 11);
    assert_eq!(i.created, 12);
    assert_eq!(i.block, 13);
    assert_eq!(i.file_mode, DIRECTORY);
    assert_eq!(i.owner_permissions, 7);
    assert_eq!(i.group_permissions, 6);
    assert_eq!(i.others_permissions, 4);
}

#[test]
fn new_is_generic_over_its_fields() {
    let i: INodeStruct<&str, u32, u16, bool, u8> = INodeStruct::new("alice", 1, 2, 3, 4, true, 1, 2, 3);
    assert_eq!(i.owner, "alice");
    assert_eq!(i.created, 3);
    assert!(i.file_mode);
}

#[test]
fn owner_goes_by_owner_permissions() {
    let i: INode = INodeStruct::new(account(1), 0, 0, 0, 0, REGULAR, WRITE, 0, 0);
    assert!(i.check_permissions(&account(1)));
    assert!(!i.check_permissions(&account(2)));
}

#[test]
fn others_go_by_others_permissions() {
    let i: INode = INodeStruct::new(account(1), 0, 0, 0, 0, REGULAR, READ | EXECUTE, 0, WRITE);
    assert!(!i.check_permissions(&account(1)));
    assert!(i.check_permissions(&account(2)));
}

#[test]
fn group_permissions_are_not_consulted() {
    let i: INode = INodeStruct::new(account(1), 0, 0, 0, 0, REGULAR, READ, ALL, READ);
    assert!(!i.check_permissions(&account(1)));
    assert!(!i.check_permissions(&account(2)));
}

#[test]
fn only_the_write_bit_counts() {
    for perms in 0u8..=255 {
        let i: INode = INodeStruct::new(account(1), 0, 0, 0, 0, REGULAR, perms, 0, perms);
        assert_eq!(i.check_permissions(&account(1)), perms & WRITE != 0);
        assert_eq!(i.check_permissions(&account(9)), perms & WRITE != 0);
    }
}

#[test]
fn default_inode_is_all_zero_and_writable_by_nobody() {
    let i = INode::default();
    assert_eq!(i.owner, [0u8; 32]);
    assert_eq!(i.modified, 0);
    assert_eq!(i.file_mode, REGULAR);
    assert_eq!(i.owner_permissions, 0);
    assert_eq!(i.others_permissions, 0);
    assert!(!i.check_permissions(&account(0)));
    assert!(!i.check_permissions(&account(3)));
}

#[test]
fn accounts_differing_in_one_byte_are_different_owners() {
    let owner = account(1);
    let mut other = owner;
    other[31] = 2;
    let i: INode = INodeStruct::new(owner, 0, 0, 0, 0, REGULAR, WRITE, 0, READ);
    assert!(i.check_permissions(&owner));
    assert!(!i.check_permissions(&other));
    let mut first = owner;
    first[0] = 0;
    assert!(!i.check_permissions(&first));
}
