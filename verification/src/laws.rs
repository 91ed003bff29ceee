use vstd::prelude::*;

use crate::inode::{grants_write, lemma_permission_masks, AccountId, INode, INodeStruct, DIRECTORY, READ, REGULAR, WRITE};
use crate::listing::{
    count_before, lemma_position_of_name, lemma_sorted_insert, lemma_sorted_partition, lemma_sorted_remove,
    position_of_name, sorted_by_name,
};
use crate::model::{dir_inode, file_inode, file_size, inode_numbers, root_inode, size_below, FsView};
use crate::names::lex_lt;
use crate::pallet::Error;

verus! {

/// The inode that the next creation takes is not in use: no inode is stored
/// under it, so no entry names it; if it comes off the free stack it lies
/// below the counter.
pub proof fn lemma_next_inode_fresh(s: FsView)
    requires
        s.wf(),
    ensures
        !s.inodes.contains_key(s.next_inode()),
        s.free_inodes.len() > 0 ==> s.next_inode() < s.current_inode,
{
    if s.free_inodes.len() > 0 {
        let last = s.free_inodes.len() - 1;
        assert(s.free_inodes[last] == s.next_inode());
        assert(s.free_inodes.contains(s.next_inode()));
    }
}

/// Changing what is stored under one number `k` changes the total size
/// below `n` by the difference of the sizes stored under `k`.
pub proof fn lemma_size_below_change(f: Map<u32, Seq<u8>>, g: Map<u32, Seq<u8>>, k: u32, n: nat)
    requires
        n <= inode_numbers(),
        forall|j: u32| j != k ==> #[trigger] file_size(f, j) == file_size(g, j),
    ensures
        size_below(g, n) + (if k < n { file_size(f, k) } else { 0 }) == size_below(f, n) + (if k < n {
            file_size(g, k)
        } else {
            0
        }),
    decreases n,
{
    if n > 0 {
        lemma_size_below_change(f, g, k, (n - 1) as nat);
        let j = (n - 1) as u32;
        assert(j as nat == n - 1);
        if j != k {
            assert(file_size(f, j) == file_size(g, j));
        }
    }
}

/// Changing what is stored under `k` changes the total size of the files
/// by the difference of the sizes stored under `k`; so no file is larger
/// than the total.
pub proof fn lemma_files_size_change(f: Map<u32, Seq<u8>>, g: Map<u32, Seq<u8>>, k: u32)
    requires
        forall|j: u32| j != k ==> #[trigger] file_size(f, j) == file_size(g, j),
    ensures
        size_below(g, inode_numbers()) + file_size(f, k) == size_below(f, inode_numbers()) + file_size(g, k),
        file_size(f, k) <= size_below(f, inode_numbers()),
{
    lemma_size_below_change(f, g, k, inode_numbers());
    let h = f.remove(k);
    assert forall|j: u32| j != k implies #[trigger] file_size(f, j) == file_size(h, j) by {}
    lemma_size_below_change(f, h, k, inode_numbers());
}

/// No files, no size.
pub proof fn lemma_size_below_empty(n: nat)
    ensures
        size_below(Map::<u32, Seq<u8>>::empty(), n) == 0,
    decreases n,
{
    if n > 0 {
        lemma_size_below_empty((n - 1) as nat);
    }
}

/// Giving a file system its root keeps it consistent.
pub proof fn lemma_with_root_keeps_wf(s: FsView, who: AccountId, now: u64, block: u64)
    requires
        s.wf(),
    ensures
        s.with_root(who, now, block).wf(),
{
    if s.current_inode == 0 {
        let r = s.with_root(who, now, block);
        if s.free_inodes.len() > 0 {
            assert(s.free_inodes[0] < s.current_inode);
        }
        assert(s.inodes =~= Map::empty());
        assert(s.directories =~= Map::empty());
        assert(s.files =~= Map::empty());
        assert(r.directories =~= map![0u32 => Seq::<(Seq<u8>, u32)>::empty()]);
        assert(r.inodes =~= map![0u32 => root_inode(who, now, block)]);
        assert(r.listings_sorted());
        assert(r.entries_stored());
        assert(r.entries_unique());
    }
}

/// Storing inode `n` and listing it as `name` in `parent`, where the checks
/// of a creation let it in, keeps a file system consistent; and this is what
/// changes.
pub proof fn lemma_link_keeps_wf(s: FsView, name: Seq<u8>, parent: u32, n: u32, ino: INode, now: u64)
    requires
        s.wf(),
        s.directories.contains_key(parent),
        position_of_name(s.listing(parent), name) is None,
        n == s.next_inode(),
        n < s.config.max_num_of_files,
        name.len() <= s.config.max_filename,
    ensures
        ({
            let r = s.link(name, parent, n, ino, now);
            let l = s.directories[parent];
            &&& r.wf()
            &&& !s.inodes.contains_key(n)
            &&& n != parent
            &&& r.directories == s.directories.insert(parent, l.insert(count_before(l, name) as int, (name, n)))
            &&& r.files == s.files
            &&& r.inodes == s.inodes.insert(n, ino).insert(parent, INodeStruct { modified: now, changed: now, ..s.inodes[parent] })
            &&& r.current_fs_size == s.current_fs_size
            &&& r.config == s.config
        }),
{
    lemma_next_inode_fresh(s);
    let r = s.link(name, parent, n, ino, now);
    let l = s.listing(parent);
    let c = count_before(l, name) as int;
    let l2 = l.insert(c, (name, n));
    lemma_sorted_insert(l, name, n);
    lemma_sorted_partition(l, name);
    assert(r.directories =~= s.directories.insert(parent, l2));
    assert(r.files == s.files);
    assert(r.inodes =~= s.inodes.insert(n, ino).insert(
        parent,
        INodeStruct { modified: now, changed: now, ..s.inodes[parent] },
    ));
    assert(n != parent);
    if s.free_inodes.len() > 0 {
        assert(r.free_inodes =~= s.free_inodes.drop_last());
        assert(r.current_inode == s.current_inode);
        assert forall|k: u32| #[trigger] r.inodes.contains_key(k) implies k < r.current_inode
            && !r.free_inodes.contains(k) by {
            if k == n {
                assert(s.free_inodes.last() == n);
                if r.free_inodes.contains(k) {
                    let i = choose|i: int| 0 <= i < r.free_inodes.len() && r.free_inodes[i] == k;
                    assert(s.free_inodes[i] == s.free_inodes[s.free_inodes.len() - 1]);
                }
            } else {
                if r.free_inodes.contains(k) {
                    let i = choose|i: int| 0 <= i < r.free_inodes.len() && r.free_inodes[i] == k;
                    assert(s.free_inodes[i] == k);
                }
            }
        }
        assert(r.free_stack_valid()) by {
            assert forall|i: int| 0 <= i < r.free_inodes.len() implies #[trigger] r.free_inodes[i] < r.current_inode by {
                assert(r.free_inodes[i] == s.free_inodes[i]);
            }
        }
    } else {
        assert(r.current_inode == n + 1);
        assert(r.free_inodes == s.free_inodes);
    }
    assert(r.inodes_allocated());
    assert(r.kinds_match());
    assert(r.listings_sorted());
    assert forall|d: u32, j: int| r.directories.contains_key(d) && 0 <= j < r.directories[d].len() implies {
        let t = #[trigger] r.directories[d][j].1;
        r.inodes.contains_key(t) && t != d && r.directories[d][j].0.len() <= r.config.max_filename
    } by {
        if d == parent {
            if j < c {
                assert(r.directories[d][j] == l[j]);
            } else if j > c {
                assert(r.directories[d][j] == l[j - 1]);
            }
        } else {
            assert(r.directories[d] == s.directories[d]);
        }
    }
    assert(r.within_limits());
    assert forall|d1: u32, j1: int, d2: u32, j2: int|
        r.directories.contains_key(d1) && r.directories.contains_key(d2) && 0 <= j1 < r.directories[d1].len()
            && 0 <= j2 < r.directories[d2].len() && (#[trigger] r.directories[d1][j1]).1 == (
        #[trigger] r.directories[d2][j2]).1 implies d1 == d2 && j1 == j2 by {
        let k1 = if d1 == parent { if j1 < c { j1 } else { j1 - 1 } } else { j1 };
        let k2 = if d2 == parent { if j2 < c { j2 } else { j2 - 1 } } else { j2 };
        let new1 = d1 == parent && j1 == c;
        let new2 = d2 == parent && j2 == c;
        if !new1 {
            assert(r.directories[d1][j1] == s.directories[d1][k1]);
            assert(s.inodes.contains_key(s.directories[d1][k1].1));
        }
        if !new2 {
            assert(r.directories[d2][j2] == s.directories[d2][k2]);
            assert(s.inodes.contains_key(s.directories[d2][k2].1));
        }
    }
}

/// Adding directory `n` where the checks of a creation let it in keeps a
/// file system consistent.
pub proof fn lemma_add_dir_keeps_wf(s: FsView, who: AccountId, name: Seq<u8>, parent: u32, n: u32, now: u64, block: u64)
    requires
        s.wf(),
        s.check_create_dir(who, name, parent) == Ok::<u32, Error>(n),
    ensures
        s.add_dir(who, name, parent, n, now, block).wf(),
{
    let ino = dir_inode(who, now, block);
    lemma_link_keeps_wf(s, name, parent, n, ino, now);
    let s1 = s.link(name, parent, n, ino, now);
    let r = s.add_dir(who, name, parent, n, now, block);
    assert(!s1.directories.contains_key(n));
    assert(r.listings_sorted());
    assert(r.kinds_match());
    assert forall|d: u32, j: int| r.directories.contains_key(d) && 0 <= j < r.directories[d].len() implies {
        let t = #[trigger] r.directories[d][j].1;
        r.inodes.contains_key(t) && t != d
    } by {
        assert(r.directories[d] == s1.directories[d]);
        assert(s1.directories[d][j] == r.directories[d][j]);
    }
    assert forall|d1: u32, j1: int, d2: u32, j2: int|
        r.directories.contains_key(d1) && r.directories.contains_key(d2) && 0 <= j1 < r.directories[d1].len()
            && 0 <= j2 < r.directories[d2].len() && (#[trigger] r.directories[d1][j1]).1 == (
        #[trigger] r.directories[d2][j2]).1 implies d1 == d2 && j1 == j2 by {
        assert(r.directories[d1] == s1.directories[d1]);
        assert(r.directories[d2] == s1.directories[d2]);
        assert(s1.directories[d1][j1] == r.directories[d1][j1]);
        assert(s1.directories[d2][j2] == r.directories[d2][j2]);
    }
}

/// Adding file `n` where the checks of a creation let it in keeps a file
/// system consistent.
pub proof fn lemma_add_file_keeps_wf(
    s: FsView,
    who: AccountId,
    name: Seq<u8>,
    content: Seq<u8>,
    parent: u32,
    n: u32,
    now: u64,
    block: u64,
)
    requires
        s.wf(),
        s.create_file_result(who, name, content, parent) == Ok::<u32, Error>(n),
    ensures
        s.add_file(who, name, content, parent, n, now, block).wf(),
{
    let ino = file_inode(who, now, block);
    lemma_link_keeps_wf(s, name, parent, n, ino, now);
    let s1 = s.link(name, parent, n, ino, now);
    let r = s.add_file(who, name, content, parent, n, now, block);
    assert(!s1.files.contains_key(n));
    assert(r.kinds_match());
    lemma_files_size_change(s1.files, r.files, n);
    assert(r.size_counted());
}

/// Unlinking the inode named by an entry keeps a file system consistent,
/// provided that what is kept of it has nothing stored under it.
pub proof fn lemma_unlink_keeps_wf(
    s: FsView,
    parent: u32,
    i: int,
    t: u32,
    now: u64,
    remove_listing: bool,
    remove_file: bool,
)
    requires
        s.wf(),
        s.directories.contains_key(parent),
        0 <= i < s.directories[parent].len(),
        t == s.directories[parent][i].1,
        !remove_listing ==> !s.directories.contains_key(t),
        !remove_file ==> !s.files.contains_key(t),
    ensures
        s.unlink(parent, i, t, now, remove_listing, remove_file).wf(),
        s.unlink(parent, i, t, now, remove_listing, remove_file).files_size() + file_size(s.files, t) == s.files_size(),
{
    let r = s.unlink(parent, i, t, now, remove_listing, remove_file);
    let l = s.directories[parent];
    let l2 = l.remove(i);
    assert(s.listing(parent) == l);
    assert(s.inodes.contains_key(t) && t != parent);
    assert(!s.free_inodes.contains(t) && t < s.current_inode);
    lemma_sorted_remove(l, i);
    assert(r.directories =~= if remove_listing {
        s.directories.insert(parent, l2).remove(t)
    } else {
        s.directories.insert(parent, l2)
    });
    assert(r.files =~= if remove_file { s.files.remove(t) } else { s.files });
    assert(r.inodes =~= s.inodes.insert(parent, INodeStruct { modified: now, changed: now, ..s.inodes[parent] }).remove(t));
    assert(r.free_inodes =~= s.free_inodes.push(t));
    assert(r.current_inode == s.current_inode);
    lemma_files_size_change(s.files, r.files, t);
    // no other entry names t
    assert forall|d: u32, j: int| s.directories.contains_key(d) && 0 <= j < s.directories[d].len() && !(d == parent && j == i)
        implies (#[trigger] s.directories[d][j]).1 != t by {
        assert(s.directories[parent][i] == l[i]);
    }
    assert(r.free_stack_valid()) by {
        assert forall|k: int| 0 <= k < r.free_inodes.len() implies #[trigger] r.free_inodes[k] < r.current_inode by {
            if k < s.free_inodes.len() {
                assert(r.free_inodes[k] == s.free_inodes[k]);
            }
        }
        assert forall|a: int, b: int| 0 <= a < r.free_inodes.len() && 0 <= b < r.free_inodes.len() && a != b
            implies r.free_inodes[a] != r.free_inodes[b] by {
            if a < s.free_inodes.len() && b < s.free_inodes.len() {
            } else if a < s.free_inodes.len() {
                assert(s.free_inodes.contains(s.free_inodes[a]));
            } else {
                assert(s.free_inodes.contains(s.free_inodes[b]));
            }
        }
    }
    assert forall|k: u32| #[trigger] r.inodes.contains_key(k) implies k < r.current_inode && !r.free_inodes.contains(k) by {
        if r.free_inodes.contains(k) {
            let a = choose|a: int| 0 <= a < r.free_inodes.len() && r.free_inodes[a] == k;
            if a < s.free_inodes.len() {
                assert(s.free_inodes.contains(k));
            }
        }
    }
    assert(r.inodes_allocated());
    assert(r.kinds_match());
    assert(r.listings_sorted()) by {
        assert forall|d: u32| #[trigger] r.directories.contains_key(d) implies sorted_by_name(r.directories[d]) by {
            if d != parent {
                assert(r.directories[d] == s.directories[d]);
            }
        }
    }
    assert forall|d: u32, j: int| r.directories.contains_key(d) && 0 <= j < r.directories[d].len() implies {
        let u = #[trigger] r.directories[d][j].1;
        r.inodes.contains_key(u) && u != d
    } by {
        if d == parent {
            let k = if j < i { j } else { j + 1 };
            assert(r.directories[d][j] == s.directories[d][k]);
        } else {
            assert(r.directories[d] == s.directories[d]);
            assert(s.directories[d][j] == r.directories[d][j]);
        }
    }
    assert forall|d1: u32, j1: int, d2: u32, j2: int|
        r.directories.contains_key(d1) && r.directories.contains_key(d2) && 0 <= j1 < r.directories[d1].len()
            && 0 <= j2 < r.directories[d2].len() && (#[trigger] r.directories[d1][j1]).1 == (
        #[trigger] r.directories[d2][j2]).1 implies d1 == d2 && j1 == j2 by {
        let k1 = if d1 == parent && j1 >= i { j1 + 1 } else { j1 };
        let k2 = if d2 == parent && j2 >= i { j2 + 1 } else { j2 };
        assert(r.directories[d1][j1] == s.directories[d1][k1]);
        assert(r.directories[d2][j2] == s.directories[d2][k2]);
    }
}

/// Every directory creation keeps the file system consistent: listings stay
/// sorted by name, no inode is named twice, the free stack and the counter
/// never hand out an inode in use.
pub proof fn create_dir_keeps_wf(s: FsView, who: AccountId, name: Seq<u8>, parent: u32, now: u64, block: u64)
    requires
        s.wf(),
    ensures
        s.create_dir_state(who, name, parent, now, block).wf(),
{
    lemma_with_root_keeps_wf(s, who, now, block);
    let s1 = s.with_root(who, now, block);
    if let Ok(n) = s1.check_create_dir(who, name, parent) {
        lemma_add_dir_keeps_wf(s1, who, name, parent, n, now, block);
    }
}

/// Every file creation keeps the file system consistent.
pub proof fn create_file_keeps_wf(s: FsView, who: AccountId, name: Seq<u8>, content: Seq<u8>, parent: u32, now: u64, block: u64)
    requires
        s.wf(),
    ensures
        s.create_file_state(who, name, content, parent, now, block).wf(),
{
    if let Ok(n) = s.create_file_result(who, name, content, parent) {
        lemma_add_file_keeps_wf(s, who, name, content, parent, n, now, block);
    }
}

/// Every directory deletion keeps the file system consistent.
pub proof fn delete_dir_keeps_wf(s: FsView, who: AccountId, name: Seq<u8>, parent: u32, now: u64)
    requires
        s.wf(),
    ensures
        s.delete_dir_state(who, name, parent, now).wf(),
{
    if let Ok(t) = s.delete_dir_result(who, name, parent) {
        let l = s.listing(parent);
        lemma_position_of_name(l, name);
        let i = position_of_name(l, name).unwrap();
        assert(s.directories[parent][i] == l[i]);
        assert(s.inodes.contains_key(t));
        assert(s.inodes[t].file_mode == DIRECTORY);
        lemma_unlink_keeps_wf(s, parent, i, t, now, true, false);
    }
}

/// Every file deletion keeps the file system consistent.
pub proof fn delete_file_keeps_wf(s: FsView, who: AccountId, name: Seq<u8>, parent: u32, now: u64)
    requires
        s.wf(),
    ensures
        s.delete_file_state(who, name, parent, now).wf(),
{
    if let Ok(t) = s.delete_file_result(who, name, parent) {
        let l = s.listing(parent);
        lemma_position_of_name(l, name);
        let i = position_of_name(l, name).unwrap();
        assert(s.directories[parent][i] == l[i]);
        assert(s.inodes.contains_key(t));
        assert(s.inodes[t].file_mode == REGULAR);
        lemma_unlink_keeps_wf(s, parent, i, t, now, false, true);
        lemma_files_size_change(s.files, s.files, t);
        let u = s.unlink(parent, i, t, now, false, true);
        let r = s.delete_file_state(who, name, parent, now);
        assert(r == FsView { current_fs_size: (s.current_fs_size - file_size(s.files, t)) as u32, ..u });
        assert(r.size_counted());
    }
}

/// A directory that `who` creates and then deletes by name leaves every
/// listing, every file and every other inode as it was (the parent's times
/// aside), and its inode back where it came from: on the free stack, or
/// the counter stays past it.
pub proof fn create_dir_then_delete_dir(
    s: FsView,
    who: AccountId,
    name: Seq<u8>,
    parent: u32,
    now: u64,
    block: u64,
    later: u64,
)
    requires
        s.wf(),
        s.create_dir_result(who, name, parent, now, block) is Ok,
    ensures
        ({
            let s1 = s.with_root(who, now, block);
            let n = s.create_dir_result(who, name, parent, now, block)->Ok_0;
            let s2 = s.create_dir_state(who, name, parent, now, block);
            let s3 = s2.delete_dir_state(who, name, parent, later);
            &&& s2.delete_dir_result(who, name, parent) == Ok::<u32, Error>(n)
            &&& s3.directories == s1.directories
            &&& s3.files == s1.files
            &&& s3.inodes == s1.touch(parent, later).inodes
            &&& s3.free_inodes == if s1.free_inodes.len() > 0 {
                s1.free_inodes
            } else {
                s1.free_inodes.push(n)
            }
            &&& s3.current_inode == if s1.free_inodes.len() > 0 {
                s1.current_inode as int
            } else {
                n + 1
            }
        }),
{
    let s1 = s.with_root(who, now, block);
    lemma_with_root_keeps_wf(s, who, now, block);
    lemma_next_inode_fresh(s1);
    let n = s.create_dir_result(who, name, parent, now, block)->Ok_0;
    let s2 = s.create_dir_state(who, name, parent, now, block);
    let l = s1.listing(parent);
    let c = count_before(l, name) as int;
    let l2 = l.insert(c, (name, n));
    lemma_sorted_insert(l, name, n);
    lemma_sorted_partition(l, name);
    assert(n != parent);
    assert(s2.listing(parent) == l2);
    crate::listing::lemma_sorted_name_unique(l2, name, c);
    assert(s2.inode(n) == dir_inode(who, now, block));
    assert(s2.listing(n) =~= Seq::<(Seq<u8>, u32)>::empty());
    assert(s2.inode(parent).can_write(who) == s1.inode(parent).can_write(who));
    assert(s2.delete_dir_result(who, name, parent) == Ok::<u32, Error>(n));
    let s3 = s2.delete_dir_state(who, name, parent, later);
    assert(l2.remove(c) =~= l);
    assert(s3.directories =~= s1.directories);
    assert(s3.files =~= s1.files);
    assert(s3.inodes =~= s1.touch(parent, later).inodes);
    if s1.free_inodes.len() > 0 {
        assert(s3.free_inodes =~= s1.free_inodes);
    }
}

/// A file that `who` creates and then deletes by name leaves every listing,
/// every file's contents, every other inode and the total size as they were
/// (the parent's times aside), and its inode back where it came from.
pub proof fn create_file_then_delete_file(
    s: FsView,
    who: AccountId,
    name: Seq<u8>,
    content: Seq<u8>,
    parent: u32,
    now: u64,
    block: u64,
    later: u64,
)
    requires
        s.wf(),
        s.create_file_result(who, name, content, parent) is Ok,
    ensures
        ({
            let n = s.create_file_result(who, name, content, parent)->Ok_0;
            let s2 = s.create_file_state(who, name, content, parent, now, block);
            let s3 = s2.delete_file_state(who, name, parent, later);
            &&& s2.delete_file_result(who, name, parent) == Ok::<u32, Error>(n)
            &&& s3.directories == s.directories
            &&& s3.files == s.files
            &&& s3.inodes == s.touch(parent, later).inodes
            &&& s3.free_inodes == if s.free_inodes.len() > 0 {
                s.free_inodes
            } else {
                s.free_inodes.push(n)
            }
            &&& s3.current_inode == if s.free_inodes.len() > 0 {
                s.current_inode as int
            } else {
                n + 1
            }
            &&& s3.current_fs_size == s.current_fs_size
        }),
{
    lemma_next_inode_fresh(s);
    let n = s.create_file_result(who, name, content, parent)->Ok_0;
    let s2 = s.create_file_state(who, name, content, parent, now, block);
    let l = s.listing(parent);
    let c = count_before(l, name) as int;
    let l2 = l.insert(c, (name, n));
    lemma_sorted_insert(l, name, n);
    lemma_sorted_partition(l, name);
    assert(n != parent);
    assert(s2.listing(parent) == l2);
    crate::listing::lemma_sorted_name_unique(l2, name, c);
    assert(s2.inode(n) == file_inode(who, now, block));
    assert(grants_write(READ | WRITE)) by {
        lemma_permission_masks();
    }
    assert(s2.inode(parent).can_write(who) == s.inode(parent).can_write(who));
    assert(s2.delete_file_result(who, name, parent) == Ok::<u32, Error>(n));
    let s3 = s2.delete_file_state(who, name, parent, later);
    assert(l2.remove(c) =~= l);
    assert(s3.directories =~= s.directories);
    assert(s3.files =~= s.files);
    assert(s3.inodes =~= s.touch(parent, later).inodes);
    if s.free_inodes.len() > 0 {
        assert(s3.free_inodes =~= s.free_inodes);
    }
    assert(file_size(s2.files, n) == content.len());
}

/// A refused request changes nothing, except that a directory creation
/// gives a file system whose counter is still zero its root first.
pub proof fn refused_requests_change_nothing(
    s: FsView,
    who: AccountId,
    name: Seq<u8>,
    content: Seq<u8>,
    parent: u32,
    now: u64,
    block: u64,
)
    ensures
        s.create_dir_result(who, name, parent, now, block) is Err ==> s.create_dir_state(who, name, parent, now, block)
            == s.with_root(who, now, block),
        s.create_file_result(who, name, content, parent) is Err ==> s.create_file_state(who, name, content, parent, now, block)
            == s,
        s.delete_dir_result(who, name, parent) is Err ==> s.delete_dir_state(who, name, parent, now) == s,
        s.delete_file_result(who, name, parent) is Err ==> s.delete_file_state(who, name, parent, now) == s,
{
}

/// After a directory is created its parent lists it under its name, with the
/// inode it got; that inode was not in use before, and now holds a
/// directory owned by the caller with an empty listing.
pub proof fn created_dir_is_listed(s: FsView, who: AccountId, name: Seq<u8>, parent: u32, now: u64, block: u64)
    requires
        s.wf(),
        s.create_dir_result(who, name, parent, now, block) is Ok,
    ensures
        ({
            let n = s.create_dir_result(who, name, parent, now, block)->Ok_0;
            let s1 = s.with_root(who, now, block);
            let s2 = s.create_dir_state(who, name, parent, now, block);
            &&& !s1.inodes.contains_key(n)
            &&& position_of_name(s2.listing(parent), name) matches Some(i) && s2.listing(parent)[i] == (name, n)
            &&& s2.inodes[n] == dir_inode(who, now, block)
            &&& s2.directories[n] == Seq::<(Seq<u8>, u32)>::empty()
        }),
{
    let s1 = s.with_root(who, now, block);
    lemma_with_root_keeps_wf(s, who, now, block);
    lemma_next_inode_fresh(s1);
    let n = s.create_dir_result(who, name, parent, now, block)->Ok_0;
    let s2 = s.create_dir_state(who, name, parent, now, block);
    let l = s1.listing(parent);
    let c = count_before(l, name) as int;
    lemma_sorted_insert(l, name, n);
    lemma_sorted_partition(l, name);
    assert(s2.listing(parent) == l.insert(c, (name, n)));
    crate::listing::lemma_sorted_name_unique(l.insert(c, (name, n)), name, c);
}

/// After a file is created its parent lists it under its name, with the
/// inode it got; that inode was not in use before, and now holds a regular
/// file owned by the caller with the given contents, whose size the total
/// counts.
pub proof fn created_file_is_listed(s: FsView, who: AccountId, name: Seq<u8>, content: Seq<u8>, parent: u32, now: u64, block: u64)
    requires
        s.wf(),
        s.create_file_result(who, name, content, parent) is Ok,
    ensures
        ({
            let n = s.create_file_result(who, name, content, parent)->Ok_0;
            let s2 = s.create_file_state(who, name, content, parent, now, block);
            &&& !s.inodes.contains_key(n)
            &&& position_of_name(s2.listing(parent), name) matches Some(i) && s2.listing(parent)[i] == (name, n)
            &&& s2.inodes[n] == file_inode(who, now, block)
            &&& s2.files[n] == content
            &&& s2.current_fs_size == s.current_fs_size + content.len()
        }),
{
    lemma_next_inode_fresh(s);
    let n = s.create_file_result(who, name, content, parent)->Ok_0;
    let s2 = s.create_file_state(who, name, content, parent, now, block);
    let l = s.listing(parent);
    let c = count_before(l, name) as int;
    lemma_sorted_insert(l, name, n);
    lemma_sorted_partition(l, name);
    assert(s2.listing(parent) == l.insert(c, (name, n)));
    crate::listing::lemma_sorted_name_unique(l.insert(c, (name, n)), name, c);
}

/// A deleted inode is the one that the next creation takes.
pub proof fn deleted_inode_is_taken_next(s: FsView, who: AccountId, name: Seq<u8>, parent: u32, now: u64)
    ensures
        s.delete_dir_result(who, name, parent) matches Ok(t) ==> s.delete_dir_state(who, name, parent, now).next_inode()
            == t,
        s.delete_file_result(who, name, parent) matches Ok(t) ==> s.delete_file_state(who, name, parent, now).next_inode()
            == t,
{
}

/// No two entries of a directory carry the same name.
pub proof fn names_unique_in_directory(s: FsView, d: u32, i: int, j: int)
    requires
        s.wf(),
        s.directories.contains_key(d),
        0 <= i < s.directories[d].len(),
        0 <= j < s.directories[d].len(),
        i != j,
    ensures
        s.directories[d][i].0 != s.directories[d][j].0,
{
    if i < j {
        assert(lex_lt(s.directories[d][i].0, s.directories[d][j].0));
    } else {
        assert(lex_lt(s.directories[d][j].0, s.directories[d][i].0));
    }
    crate::names::lemma_lex_asymmetric(s.directories[d][i].0, s.directories[d][i].0);
}

/// Nobody but its creator may delete a directory or a file just created:
/// the others' permissions of a new inode lack the write bit.
pub proof fn others_cannot_delete_what_they_did_not_create(
    s: FsView,
    who: AccountId,
    other: AccountId,
    name: Seq<u8>,
    content: Seq<u8>,
    parent: u32,
    now: u64,
    block: u64,
)
    requires
        s.wf(),
        other != who,
    ensures
        s.create_dir_result(who, name, parent, now, block) is Ok
            ==> s.create_dir_state(who, name, parent, now, block).delete_dir_result(other, name, parent) != Ok::<
            u32,
            Error,
        >(s.create_dir_result(who, name, parent, now, block)->Ok_0),
        s.create_file_result(who, name, content, parent) is Ok
            ==> s.create_file_state(who, name, content, parent, now, block).delete_file_result(other, name, parent) != Ok::<
            u32,
            Error,
        >(s.create_file_result(who, name, content, parent)->Ok_0),
{
    lemma_permission_masks();
    if s.create_dir_result(who, name, parent, now, block) is Ok {
        created_dir_is_listed(s, who, name, parent, now, block);
        let n = s.create_dir_result(who, name, parent, now, block)->Ok_0;
        let s2 = s.create_dir_state(who, name, parent, now, block);
        let i = position_of_name(s2.listing(parent), name)->Some_0;
        assert(s2.listing(parent)[i].1 == n);
        assert(!s2.inode(n).can_write(other));
    }
    if s.create_file_result(who, name, content, parent) is Ok {
        created_file_is_listed(s, who, name, content, parent, now, block);
        let n = s.create_file_result(who, name, content, parent)->Ok_0;
        let s2 = s.create_file_state(who, name, content, parent, now, block);
        let i = position_of_name(s2.listing(parent), name)->Some_0;
        assert(s2.listing(parent)[i].1 == n);
        assert(!s2.inode(n).can_write(other));
    }
}

/// A file creation that goes through leaves the total size within the
/// limit on the size of all files.
pub proof fn created_file_stays_within_space(s: FsView, who: AccountId, name: Seq<u8>, content: Seq<u8>, parent: u32, now: u64, block: u64)
    requires
        s.create_file_result(who, name, content, parent) is Ok,
    ensures
        s.create_file_state(who, name, content, parent, now, block).current_fs_size <= s.config.max_fs_size,
{
}

/// A set of numbers all below `m` has at most `m` members.
pub proof fn lemma_bounded_set_len(set: Set<u32>, m: nat)
    requires
        set.finite(),
        forall|k: u32| #[trigger] set.contains(k) ==> k < m,
    ensures
        set.len() <= m,
    decreases m,
{
    if m == 0 {
        if set.len() > 0 {
            assert(set.contains(set.choose()));
        }
    } else {
        let top = (m - 1) as u32;
        if m - 1 <= u32::MAX {
            lemma_bounded_set_len(set.remove(top), (m - 1) as nat);
        } else {
            lemma_bounded_set_len(set, (m - 1) as nat);
        }
    }
}

/// There are never more stored inodes than the limit on inodes allows; the
/// root, which the first directory creation makes before any check, is the
/// one inode that a limit of zero still admits.
pub proof fn stored_inodes_within_limit(s: FsView)
    requires
        s.wf(),
    ensures
        s.inodes.dom().len() <= if s.config.max_num_of_files == 0 {
            1
        } else {
            s.config.max_num_of_files as int
        },
{
    let m: nat = if s.config.max_num_of_files == 0 { 1 } else { s.config.max_num_of_files as nat };
    assert forall|k: u32| #[trigger] s.inodes.dom().contains(k) implies k < m by {
        assert(s.inodes.contains_key(k));
    }
    lemma_bounded_set_len(s.inodes.dom(), m);
}

/// The total size is what it started from plus the sizes of the stored
/// files: no request changes the difference between the total and the sizes
/// of the stored files.
pub proof fn requests_keep_size_accounting(
    s: FsView,
    who: AccountId,
    name: Seq<u8>,
    content: Seq<u8>,
    parent: u32,
    now: u64,
    block: u64,
)
    requires
        s.wf(),
    ensures
        ({
            let d = s.current_fs_size - s.files_size();
            let a = s.create_dir_state(who, name, parent, now, block);
            let b = s.create_file_state(who, name, content, parent, now, block);
            let c = s.delete_dir_state(who, name, parent, now);
            let e = s.delete_file_state(who, name, parent, now);
            &&& a.current_fs_size - a.files_size() == d
            &&& b.current_fs_size - b.files_size() == d
            &&& c.current_fs_size - c.files_size() == d
            &&& e.current_fs_size - e.files_size() == d
        }),
{
    let s1 = s.with_root(who, now, block);
    if let Ok(n) = s1.check_create_dir(who, name, parent) {
        lemma_with_root_keeps_wf(s, who, now, block);
        lemma_link_keeps_wf(s1, name, parent, n, dir_inode(who, now, block), now);
    }
    if let Ok(n) = s.create_file_result(who, name, content, parent) {
        lemma_link_keeps_wf(s, name, parent, n, file_inode(who, now, block), now);
        lemma_next_inode_fresh(s);
        let s2 = s.link(name, parent, n, file_inode(who, now, block), now);
        lemma_files_size_change(s2.files, s2.files.insert(n, content), n);
    }
    if let Ok(t) = s.delete_dir_result(who, name, parent) {
        let l = s.listing(parent);
        lemma_position_of_name(l, name);
        let i = position_of_name(l, name).unwrap();
        assert(s.directories[parent][i] == l[i]);
        assert(s.inodes.contains_key(t));
        assert(s.inodes[t].file_mode == DIRECTORY);
        lemma_unlink_keeps_wf(s, parent, i, t, now, true, false);
    }
    if let Ok(t) = s.delete_file_result(who, name, parent) {
        let l = s.listing(parent);
        lemma_position_of_name(l, name);
        let i = position_of_name(l, name).unwrap();
        assert(s.directories[parent][i] == l[i]);
        assert(s.inodes.contains_key(t));
        assert(s.inodes[t].file_mode == REGULAR);
        lemma_unlink_keeps_wf(s, parent, i, t, now, false, true);
        lemma_files_size_change(s.files, s.files, t);
    }
}

/// Every stored file is at most `max_file_size` bytes, and every name in a
/// listing at most `max_filename` bytes.
pub proof fn stored_files_and_names_within_limits(s: FsView)
    requires
        s.wf(),
    ensures
        forall|k: u32| #[trigger] s.files.contains_key(k) ==> s.files[k].len() <= s.config.max_file_size,
        forall|d: u32, j: int|
            s.directories.contains_key(d) && 0 <= j < s.directories[d].len() ==> (
            #[trigger] s.directories[d][j]).0.len() <= s.config.max_filename,
{
}

} // verus!
