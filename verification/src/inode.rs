use vstd::prelude::*;

verus! {

/// Permission bit: the inode may be executed (a directory may be traversed).
pub const EXECUTE: u8 = 0x01;

/// Permission bit: the inode may be written.
pub const WRITE: u8 = 0x02;

/// Permission bit: the inode may be read.
pub const READ: u8 = 0x04;

/// Every permission bit.
pub const ALL: u8 = 0x07;

/// File mode of a regular file.
pub const REGULAR: u8 = 0x00;

/// File mode of a directory.
pub const DIRECTORY: u8 = 0x01;

/// Whether a permission mask has its write bit set.
pub open spec fn grants_write(perms: u8) -> bool {
    (perms / 2) % 2 == 1
}

/// What the masks that new inodes get are: owner and group of a directory
/// get every bit and may write it, the others read and traverse it and may
/// not; owner and group of a regular file read and write it, the others only
/// read it.
pub proof fn lemma_permission_masks()
    ensures
        EXECUTE | WRITE | READ == ALL,
        READ | WRITE | EXECUTE == ALL,
        READ | EXECUTE == 5u8,
        READ | WRITE == 6u8,
        grants_write(ALL),
        !grants_write(READ | EXECUTE),
        grants_write(READ | WRITE),
        !grants_write(READ),
{
    assert(EXECUTE | WRITE | READ == ALL) by (bit_vector);
    assert(READ | WRITE | EXECUTE == ALL) by (bit_vector);
    assert(READ | EXECUTE == 5u8) by (bit_vector);
    assert(READ | WRITE == 6u8) by (bit_vector);
}

/// The metadata of one inode: its owner, its three timestamps, the block at
/// which it was made, its mode and the permissions of its owner, of its group
/// and of everybody else.
#[derive(Clone, Copy, Debug, PartialEq, Eq)]
pub struct INodeStruct<Account, Time, Block, FileMode, Permissions> {
    pub owner: Account,
    pub modified: Time,
    pub changed: Time,
    pub created: Time,
    pub block: Block,
    pub file_mode: FileMode,
    pub owner_permissions: Permissions,
    pub group_permissions: Permissions,
    pub others_permissions: Permissions,
}

/// An account: its 32 bytes, compared byte by byte.
pub type AccountId = [u8; 32];

/// The inode as the file system stores it: accounts are 32 bytes, times and
/// block numbers are `u64`, modes and permission masks are bytes.
pub type INode = INodeStruct<AccountId, u64, u64, u8, u8>;

/// Tells whether two accounts are the same, byte by byte.
pub fn same_account(a: &AccountId, b: &AccountId) -> (r: bool)
    ensures
        r == (*a == *b),
{
    let mut i: usize = 0;
    while i < 32
        invariant
            i <= 32,
            forall|j: int| 0 <= j < i ==> a[j] == b[j],
        decreases 32 - i,
    {
        if a[i] != b[i] {
            return false;
        }
        i = i + 1;
    }
    assert(*a =~= *b);
    true
}

impl<Account, Time, Block, FileMode, Permissions> INodeStruct<
    Account,
    Time,
    Block,
    FileMode,
    Permissions,
> {
    /// The inode with exactly these fields.
    pub open spec fn spec_new(
        owner: Account,
        modified: Time,
        changed: Time,
        created: Time,
        block: Block,
        file_mode: FileMode,
        owner_permissions: Permissions,
        group_permissions: Permissions,
        others_permissions: Permissions,
    ) -> Self {
        INodeStruct {
            owner,
            modified,
            changed,
            created,
            block,
            file_mode,
            owner_permissions,
            group_permissions,
            others_permissions,
        }
    }

    /// Builds an inode from its fields.
    pub fn new(
        owner: Account,
        modified: Time,
        changed: Time,
        created: Time,
        block: Block,
        file_mode: FileMode,
        owner_permissions: Permissions,
        group_permissions: Permissions,
        others_permissions: Permissions,
    ) -> (r: Self)
        ensures
            r == Self::spec_new(
                owner,
                modified,
                changed,
                created,
                block,
                file_mode,
                owner_permissions,
                group_permissions,
                others_permissions,
            ),
    {
        INodeStruct {
            owner,
            modified,
            changed,
            created,
            block,
            file_mode,
            owner_permissions,
            group_permissions,
            others_permissions,
        }
    }
}

impl<Time, Block, FileMode> INodeStruct<AccountId, Time, Block, FileMode, u8> {
    /// Whether `who` may write this inode: the owner goes by the owner's
    /// permissions, everybody else by the others' permissions.
    pub open spec fn can_write(self, who: AccountId) -> bool {
        if who == self.owner {
            grants_write(self.owner_permissions)
        } else {
            grants_write(self.others_permissions)
        }
    }

    /// Tells whether `who` may write this inode (see `can_write`).
    pub fn check_permissions(&self, who: &AccountId) -> (r: bool)
        ensures
            r == self.can_write(*who),
    {
        let perms = if same_account(who, &self.owner) {
            self.owner_permissions
        } else {
            self.others_permissions
        };
        let r = perms & WRITE != 0;
        assert((perms & 2u8 != 0) == ((perms / 2) % 2 == 1)) by (bit_vector);
        r
    }
}

/// The inode that a storage read yields for an inode that is not stored:
/// every field zero.
pub open spec fn default_inode() -> INode {
    INodeStruct {
        owner: vstd::array::spec_array_fill_for_copy_type::<u8, 32>(0u8),
        modified: 0,
        changed: 0,
        created: 0,
        block: 0,
        file_mode: 0,
        owner_permissions: 0,
        group_permissions: 0,
        others_permissions: 0,
    }
}

impl Default for INodeStruct<AccountId, u64, u64, u8, u8> {
    fn default() -> (r: Self)
        ensures
            r == default_inode(),
    {
        INodeStruct {
            owner: [0u8; 32],
            modified: 0,
            changed: 0,
            created: 0,
            block: 0,
            file_mode: 0,
            owner_permissions: 0,
            group_permissions: 0,
            others_permissions: 0,
        }
    }
}

/// Who may write an inode: the owner exactly when the owner's mask has the
/// write bit, everybody else exactly when the others' mask has it; the
/// group's mask and every other bit never matter.
pub proof fn write_permission_goes_by_the_write_bit(i: INode, j: INode, who: AccountId)
    requires
        i.owner == j.owner,
        i.owner_permissions & WRITE == j.owner_permissions & WRITE,
        i.others_permissions & WRITE == j.others_permissions & WRITE,
    ensures
        i.can_write(who) == if who == i.owner {
            i.owner_permissions & WRITE != 0
        } else {
            i.others_permissions & WRITE != 0
        },
        i.can_write(who) == j.can_write(who),
{
    let (a, b, c, d) = (i.owner_permissions, i.others_permissions, j.owner_permissions, j.others_permissions);
    assert((a & 2u8 != 0) == ((a / 2) % 2 == 1)) by (bit_vector);
    assert((b & 2u8 != 0) == ((b / 2) % 2 == 1)) by (bit_vector);
    assert((c & 2u8 != 0) == ((c / 2) % 2 == 1)) by (bit_vector);
    assert((d & 2u8 != 0) == ((d / 2) % 2 == 1)) by (bit_vector);
}

} // verus!
