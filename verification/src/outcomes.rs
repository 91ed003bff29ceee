use vstd::prelude::*;

use crate::inode::{grants_write, AccountId, ALL, DIRECTORY, EXECUTE, READ, REGULAR, WRITE};
use crate::laws::{created_dir_is_listed, created_file_is_listed};
use crate::listing::{lemma_position_of_name, lemma_sorted_name_unique, position_of_name};
use crate::model::FsView;
use crate::pallet::Error;

verus! {

/// No entry of the listing of `parent` carries `name`.
pub open spec fn name_free(s: FsView, parent: u32, name: Seq<u8>) -> bool {
    forall|j: int| 0 <= j < s.listing(parent).len() ==> #[trigger] s.listing(parent)[j].0 != name
}

/// Some entry of the listing of `parent` carries `name` and names inode `t`.
pub open spec fn names_inode(s: FsView, parent: u32, name: Seq<u8>, t: u32) -> bool {
    exists|j: int| 0 <= j < s.listing(parent).len() && #[trigger] s.listing(parent)[j] == (name, t)
}

proof fn lemma_name_free(s: FsView, parent: u32, name: Seq<u8>)
    ensures
        (position_of_name(s.listing(parent), name) is None) == name_free(s, parent, name),
{
    lemma_position_of_name(s.listing(parent), name);
    if position_of_name(s.listing(parent), name) is Some {
        let i = position_of_name(s.listing(parent), name)->Some_0;
        assert(s.listing(parent)[i].0 == name);
    }
}

/// In a consistent file system, an entry that carries `name` and names `t`
/// is the one the lookup by name finds.
proof fn lemma_entry_found(s: FsView, parent: u32, name: Seq<u8>, t: u32)
    requires
        s.wf(),
        s.directories.contains_key(parent),
        names_inode(s, parent, name, t),
    ensures
        position_of_name(s.listing(parent), name) matches Some(i) && s.listing(parent)[i] == (name, t),
{
    let j = choose|j: int| 0 <= j < s.listing(parent).len() && #[trigger] s.listing(parent)[j] == (name, t);
    assert(s.listing(parent) == s.directories[parent]);
    lemma_sorted_name_unique(s.listing(parent), name, j);
}

/// On a file system that has its root, a directory creation goes through
/// exactly when the inode it would take (the most recently freed, or the
/// counter's) is below the limit, the name fits, the parent is a directory
/// that the caller may write and the name is free there; it then gives that
/// inode. It is refused for permissions only when the caller may not write
/// the parent, and for the inode limit only when that inode is not below it.
pub proof fn create_dir_succeeds_exactly_when(s: FsView, who: AccountId, name: Seq<u8>, parent: u32, now: u64, block: u64)
    requires
        s.current_inode != 0,
    ensures
        s.create_dir_result(who, name, parent, now, block) is Ok <==> {
            &&& s.next_inode() < s.config.max_num_of_files
            &&& name.len() <= s.config.max_filename
            &&& s.directories.contains_key(parent)
            &&& s.inode(parent).can_write(who)
            &&& name_free(s, parent, name)
        },
        s.create_dir_result(who, name, parent, now, block) is Ok ==> s.create_dir_result(who, name, parent, now, block)
            == Ok::<u32, Error>(s.next_inode()),
        s.create_dir_result(who, name, parent, now, block) == Err::<u32, Error>(Error::NotEnoughPermissions)
            ==> s.directories.contains_key(parent) && !s.inode(parent).can_write(who),
        s.create_dir_result(who, name, parent, now, block) == Err::<u32, Error>(Error::TooManyFiles)
            ==> s.config.max_num_of_files <= s.next_inode(),
{
    assert(s.with_root(who, now, block) == s);
    lemma_name_free(s, parent, name);
}

/// A file creation goes through exactly when the inode it would take is
/// below the limit, the total with the new contents stays within the limit
/// on all files, the contents fit the limit on a file, the name fits, the
/// parent is a directory that the caller may write and the name is free
/// there; it then gives that inode. It is refused for permissions only when
/// the caller may not write the parent.
pub proof fn create_file_succeeds_exactly_when(s: FsView, who: AccountId, name: Seq<u8>, content: Seq<u8>, parent: u32)
    ensures
        s.create_file_result(who, name, content, parent) is Ok <==> {
            &&& s.next_inode() < s.config.max_num_of_files
            &&& s.current_fs_size + content.len() <= s.config.max_fs_size
            &&& content.len() <= s.config.max_file_size
            &&& name.len() <= s.config.max_filename
            &&& s.directories.contains_key(parent)
            &&& s.inode(parent).can_write(who)
            &&& name_free(s, parent, name)
        },
        s.create_file_result(who, name, content, parent) is Ok ==> s.create_file_result(who, name, content, parent)
            == Ok::<u32, Error>(s.next_inode()),
        s.create_file_result(who, name, content, parent) == Err::<u32, Error>(Error::NotEnoughPermissions)
            ==> s.directories.contains_key(parent) && !s.inode(parent).can_write(who),
        s.create_file_result(who, name, content, parent) == Err::<u32, Error>(Error::TooManyFiles)
            ==> s.config.max_num_of_files <= s.next_inode(),
        s.create_file_result(who, name, content, parent) == Err::<u32, Error>(Error::NoSpace)
            ==> s.config.max_fs_size < s.current_fs_size + content.len(),
{
    lemma_name_free(s, parent, name);
}

/// A directory deletion goes through exactly when the parent is a directory
/// that the caller may write, an entry there carries the name and names an
/// inode that the caller may write, that is a directory and whose listing is
/// empty; it then gives that inode. So a directory that lists anything is
/// never deleted.
pub proof fn delete_dir_succeeds_exactly_when(s: FsView, who: AccountId, name: Seq<u8>, parent: u32)
    requires
        s.wf(),
    ensures
        forall|t: u32|
            s.delete_dir_result(who, name, parent) == Ok::<u32, Error>(t) <==> {
                &&& s.directories.contains_key(parent)
                &&& s.inode(parent).can_write(who)
                &&& names_inode(s, parent, name, t)
                &&& s.inode(t).can_write(who)
                &&& s.inode(t).file_mode == DIRECTORY
                &&& s.listing(t).len() == 0
            },
        s.delete_dir_result(who, name, parent) matches Ok(t) ==> s.listing(t).len() == 0,
        s.delete_dir_result(who, name, parent) == Err::<u32, Error>(Error::DirIsNotEmpty) ==> exists|t: u32|
            names_inode(s, parent, name, t) && s.listing(t).len() > 0,
{
    lemma_position_of_name(s.listing(parent), name);
    if let Some(i) = position_of_name(s.listing(parent), name) {
        let t = s.listing(parent)[i].1;
        assert(s.listing(parent)[i] == (name, t));
        assert(names_inode(s, parent, name, t));
    }
    assert forall|t: u32|
        s.delete_dir_result(who, name, parent) == Ok::<u32, Error>(t) <== {
            &&& s.directories.contains_key(parent)
            &&& s.inode(parent).can_write(who)
            &&& names_inode(s, parent, name, t)
            &&& s.inode(t).can_write(who)
            &&& s.inode(t).file_mode == DIRECTORY
            &&& s.listing(t).len() == 0
        } by {
        if s.directories.contains_key(parent) && names_inode(s, parent, name, t) {
            lemma_entry_found(s, parent, name, t);
        }
    }
}

/// A file deletion goes through exactly when the parent is a directory that
/// the caller may write, an entry there carries the name and names an inode
/// that the caller may write and that is a regular file; it then gives that
/// inode.
pub proof fn delete_file_succeeds_exactly_when(s: FsView, who: AccountId, name: Seq<u8>, parent: u32)
    requires
        s.wf(),
    ensures
        forall|t: u32|
            s.delete_file_result(who, name, parent) == Ok::<u32, Error>(t) <==> {
                &&& s.directories.contains_key(parent)
                &&& s.inode(parent).can_write(who)
                &&& names_inode(s, parent, name, t)
                &&& s.inode(t).can_write(who)
                &&& s.inode(t).file_mode == REGULAR
            },
{
    lemma_position_of_name(s.listing(parent), name);
    if let Some(i) = position_of_name(s.listing(parent), name) {
        let t = s.listing(parent)[i].1;
        assert(s.listing(parent)[i] == (name, t));
        assert(names_inode(s, parent, name, t));
    }
    assert forall|t: u32|
        s.delete_file_result(who, name, parent) == Ok::<u32, Error>(t) <== {
            &&& s.directories.contains_key(parent)
            &&& s.inode(parent).can_write(who)
            &&& names_inode(s, parent, name, t)
            &&& s.inode(t).can_write(who)
            &&& s.inode(t).file_mode == REGULAR
        } by {
        if s.directories.contains_key(parent) && names_inode(s, parent, name, t) {
            lemma_entry_found(s, parent, name, t);
        }
    }
}

/// A new directory's inode records the request: owned by the caller, made,
/// modified and changed at the request's time, in the request's block, a
/// directory with every permission for owner and group and read and
/// traverse for the others; the parent's modified and changed times become
/// the request's time and its creation time stays.
pub proof fn created_dir_records_request(s: FsView, who: AccountId, name: Seq<u8>, parent: u32, now: u64, block: u64)
    requires
        s.wf(),
        s.create_dir_result(who, name, parent, now, block) is Ok,
    ensures
        ({
            let n = s.create_dir_result(who, name, parent, now, block)->Ok_0;
            let s1 = s.with_root(who, now, block);
            let i = s.create_dir_state(who, name, parent, now, block).inodes[n];
            let p = s.create_dir_state(who, name, parent, now, block).inodes[parent];
            &&& i.owner == who
            &&& i.created == now
            &&& i.modified == now
            &&& i.changed == now
            &&& i.block == block
            &&& i.file_mode == DIRECTORY
            &&& i.owner_permissions == ALL
            &&& i.group_permissions == ALL
            &&& i.others_permissions == READ | EXECUTE
            &&& p.modified == now
            &&& p.changed == now
            &&& p.created == s1.inodes[parent].created
            &&& p.owner == s1.inodes[parent].owner
        }),
{
    created_dir_is_listed(s, who, name, parent, now, block);
    crate::laws::lemma_with_root_keeps_wf(s, who, now, block);
    crate::laws::lemma_next_inode_fresh(s.with_root(who, now, block));
}

/// A new file's inode records the request: owned by the caller, made,
/// modified and changed at the request's time, in the request's block, a
/// regular file that owner and group read and write and the others read;
/// the parent's modified and changed times become the request's time and
/// its creation time stays.
pub proof fn created_file_records_request(
    s: FsView,
    who: AccountId,
    name: Seq<u8>,
    content: Seq<u8>,
    parent: u32,
    now: u64,
    block: u64,
)
    requires
        s.wf(),
        s.create_file_result(who, name, content, parent) is Ok,
    ensures
        ({
            let n = s.create_file_result(who, name, content, parent)->Ok_0;
            let i = s.create_file_state(who, name, content, parent, now, block).inodes[n];
            let p = s.create_file_state(who, name, content, parent, now, block).inodes[parent];
            &&& i.owner == who
            &&& i.created == now
            &&& i.modified == now
            &&& i.changed == now
            &&& i.block == block
            &&& i.file_mode == REGULAR
            &&& i.owner_permissions == READ | WRITE
            &&& i.group_permissions == READ | WRITE
            &&& i.others_permissions == READ
            &&& p.modified == now
            &&& p.changed == now
            &&& p.created == s.inodes[parent].created
            &&& p.owner == s.inodes[parent].owner
        }),
{
    created_file_is_listed(s, who, name, content, parent, now, block);
    crate::laws::lemma_next_inode_fresh(s);
}

/// The first directory creation on a file system whose counter is still
/// zero makes the root, inode 0: owned by the caller, made at the request's
/// time in the request's block, a directory that everybody may read, write
/// and traverse, and lists nothing but what the request adds. The request
/// itself goes through exactly when it names the root as parent, inode 1 is
/// below the limit and the name fits; it then gives inode 1.
pub proof fn first_dir_creation_makes_the_root(s: FsView, who: AccountId, name: Seq<u8>, parent: u32, now: u64, block: u64)
    requires
        s.wf(),
        s.current_inode == 0,
    ensures
        ({
            let r = s.create_dir_state(who, name, parent, now, block);
            let root = r.inodes[0];
            &&& r.inodes.contains_key(0)
            &&& r.directories.contains_key(0)
            &&& root.owner == who
            &&& root.created == now
            &&& root.modified == now
            &&& root.changed == now
            &&& root.block == block
            &&& root.file_mode == DIRECTORY
            &&& root.owner_permissions == ALL
            &&& root.group_permissions == ALL
            &&& root.others_permissions == ALL
            &&& r.current_inode >= 1
        }),
        s.create_dir_result(who, name, parent, now, block) is Ok <==> {
            &&& parent == 0
            &&& 1 < s.config.max_num_of_files
            &&& name.len() <= s.config.max_filename
        },
        s.create_dir_result(who, name, parent, now, block) is Ok ==> s.create_dir_result(who, name, parent, now, block)
            == Ok::<u32, Error>(1),
{
    let s1 = s.with_root(who, now, block);
    if s.free_inodes.len() > 0 {
        assert(s.free_inodes[0] < s.current_inode);
    }
    assert(s.inodes =~= Map::empty());
    assert(s.directories =~= Map::empty());
    assert(s1.listing(0) =~= Seq::<(Seq<u8>, u32)>::empty());
    lemma_name_free(s1, parent, name);
    assert(grants_write(ALL));
    if s.create_dir_result(who, name, parent, now, block) is Ok {
        created_dir_records_request(s, who, name, parent, now, block);
        crate::laws::lemma_with_root_keeps_wf(s, who, now, block);
        crate::laws::create_dir_keeps_wf(s, who, name, parent, now, block);
    }
}

} // verus!
