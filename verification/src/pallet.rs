use std::collections::HashMap;
use vstd::prelude::*;

use crate::inode::{AccountId, INode, ALL, DIRECTORY, EXECUTE, READ, REGULAR, WRITE};
use crate::laws::{
    create_dir_keeps_wf, create_file_keeps_wf, delete_dir_keeps_wf, delete_file_keeps_wf, lemma_next_inode_fresh,
    lemma_files_size_change, lemma_size_below_empty, lemma_with_root_keeps_wf,
};
use crate::listing::{
    count_before, lemma_position_of_name, lemma_sorted_partition, listing_view, position_of_name, search_listing,
    sorted_by_name,
};
use crate::model::{file_size, inode_numbers, FsView};

verus! {

/// The limits that the runtime sets for the file system.
#[derive(Clone, Copy, Debug, PartialEq, Eq, Structural)]
pub struct Config {
    /// Maximum size of a single file in bytes.
    pub max_file_size: u32,
    /// Maximum size of all files together.
    pub max_fs_size: u32,
    /// Maximum number of inodes: every inode handed out lies below it (the
    /// root, made before any check, excepted).
    pub max_num_of_files: u32,
    /// Maximum length of a name in bytes.
    pub max_filename: u32,
}

/// Why a request was refused.
#[derive(Clone, Copy, Debug, PartialEq, Eq, Structural)]
pub enum Error {
    /// A directory/file with the same name already exists.
    AlreadyExists,
    /// A directory/file with this name does not exist.
    DoesNotExist,
    /// No such directory.
    IncorrectPath,
    /// The name should start with / and contain the full path to the file.
    IncorrectName,
    IncorrectParentInode,
    DirectoryAlreadyExists,
    NameIsTooBig,
    NotEnoughPermissions,
    TooManyFiles,
    DirIsNotEmpty,
    NotDirectory,
    NoDirectoryWithSuchName,
    FileAlreadyExists,
    NoSpace,
    FileIsTooBig,
    NotFile,
    NoFileWithSuchName,
}

/// What a request that went through reports.
#[derive(Clone, Debug, PartialEq, Eq)]
pub enum Event {
    /// A directory was created [who, name, inode].
    DirectoryCreated(AccountId, Vec<u8>, u32),
    /// A directory was deleted [who, name, inode].
    DirectoryDeleted(AccountId, Vec<u8>, u32),
    /// A directory was renamed [who, old_name, new_name].
    DirectoryRenamed(AccountId, Vec<u8>, Vec<u8>),
    /// A directory was moved to another directory [who, old_path, new_path].
    DirectoryMoved(AccountId, Vec<u8>, Vec<u8>),
    /// A file was created [who, name, inode, dir_inode].
    FileCreated(AccountId, Vec<u8>, u32, u32),
    /// A file was deleted [who, name, inode].
    FileDeleted(AccountId, Vec<u8>, u32),
    /// A file was changed [who, name].
    FileChanged(AccountId, Vec<u8>),
    /// A file was renamed [who, old_name, new_name].
    FileRenamed(AccountId, Vec<u8>, Vec<u8>),
    /// A file was moved [who, old_path, new_path].
    FileMoved(AccountId, Vec<u8>, Vec<u8>),
}

/// The values that a new file system starts from.
#[derive(Clone, Copy, Debug)]
pub struct GenesisConfig {
    pub start_fs_size: u32,
    pub start_inode_num: u32,
}

impl Default for GenesisConfig {
    fn default() -> (r: Self)
        ensures
            r.start_fs_size == 0,
            r.start_inode_num == 0,
    {
        GenesisConfig { start_fs_size: 0, start_inode_num: 0 }
    }
}

/// The storage of the file system: the inodes, the listing of each
/// directory (its entries sorted by name), the contents of each file, the
/// next inode of the counter, the stack of freed inodes and the total size
/// of the files; and the limits it runs under.
struct Storage {
    config: Config,
    inodes: HashMap<u32, INode>,
    directories: HashMap<u32, Vec<(Vec<u8>, u32)>>,
    files: HashMap<u32, Vec<u8>>,
    current_inode: u32,
    free_inodes: Vec<u32>,
    current_fs_size: u32,
}

impl View for Storage {
    type V = FsView;

    closed spec fn view(&self) -> FsView {
        FsView {
            config: self.config,
            inodes: self.inodes@,
            directories: Map::new(
                |k: u32| self.directories@.contains_key(k),
                |k: u32| listing_view(self.directories@[k]@),
            ),
            files: Map::new(|k: u32| self.files@.contains_key(k), |k: u32| self.files@[k]@),
            current_inode: self.current_inode,
            free_inodes: self.free_inodes@,
            current_fs_size: self.current_fs_size,
        }
    }
}

/// The file system: its storage, which is consistent at all times (see
/// `FsView::wf`).
pub struct Pallet {
    storage: Storage,
}

impl View for Pallet {
    type V = FsView;

    closed spec fn view(&self) -> FsView {
        self.storage@
    }
}

impl Pallet {
    #[verifier::type_invariant]
    spec fn consistent(self) -> bool {
        self.storage@.wf()
    }
}

impl GenesisConfig {
    /// A new file system under `config`: nothing stored, the counter at
    /// `start_inode_num`, the total size at `start_fs_size`.
    pub fn build(&self, config: Config) -> (r: Pallet)
        ensures
            r@.wf(),
            r@ == (FsView {
                config,
                inodes: Map::empty(),
                directories: Map::empty(),
                files: Map::empty(),
                current_inode: self.start_inode_num,
                free_inodes: Seq::empty(),
                current_fs_size: self.start_fs_size,
            }),
            r@.files_size() == 0,
    {
        let storage = Storage::new(config, self.start_inode_num, self.start_fs_size);
        Pallet { storage }
    }
}

impl Pallet {
    /// The limits the file system runs under.
    pub fn config(&self) -> (r: Config)
        ensures
            r == self@.config,
    {
        self.storage.config
    }

    /// The inode stored under `k`, or the all-zero inode if none is.
    pub fn inode(&self, k: u32) -> (r: INode)
        ensures
            r == self@.inode(k),
    {
        self.storage.inode(k)
    }

    /// The listing of directory `k`, if it is a directory.
    pub fn directory(&self, k: u32) -> (r: Option<&Vec<(Vec<u8>, u32)>>)
        ensures
            match r {
                Some(v) => self@.directories.contains_key(k) && listing_view(v@) == self@.directories[k],
                None => !self@.directories.contains_key(k),
            },
    {
        self.storage.directories.get(&k)
    }

    /// The contents of file `k`, if it is stored.
    pub fn file(&self, k: u32) -> (r: Option<&Vec<u8>>)
        ensures
            match r {
                Some(v) => self@.files.contains_key(k) && v@ == self@.files[k],
                None => !self@.files.contains_key(k),
            },
    {
        self.storage.files.get(&k)
    }

    /// The next inode of the counter.
    pub fn current_inode(&self) -> (r: u32)
        ensures
            r == self@.current_inode,
    {
        self.storage.current_inode
    }

    /// The stack of freed inodes, the most recently freed last.
    pub fn free_inodes(&self) -> (r: &Vec<u32>)
        ensures
            r@ == self@.free_inodes,
    {
        &self.storage.free_inodes
    }

    /// The total size of the files, as the file system counts it.
    pub fn current_fs_size(&self) -> (r: u32)
        ensures
            r == self@.current_fs_size,
    {
        self.storage.current_fs_size
    }

    /// Creates directory `dir_name` in directory `parent_inode` for `who`, at
    /// time `now` in block `block`. A file system whose counter is still zero
    /// first gets its root directory, inode 0, owned by `who`; that stays
    /// even when the request is refused. The new directory takes the most
    /// recently freed inode, or else the counter's; the request is refused
    /// if that inode is not below the limit on inodes, if the name is too
    /// long, if the parent is no directory or `who` may not write it, or if
    /// the name is taken there. A refused request changes nothing else.
    pub fn create_dir(&mut self, who: AccountId, dir_name: Vec<u8>, parent_inode: u32, now: u64, block: u64) -> (r: Result<
        Event,
        Error,
    >)
        ensures
            final(self)@.wf(),
            final(self)@ == old(self)@.create_dir_state(who, dir_name@, parent_inode, now, block),
            match old(self)@.create_dir_result(who, dir_name@, parent_inode, now, block) {
                Ok(n) => r matches Ok(Event::DirectoryCreated(w, nm, i)) && w == who && nm@ == dir_name@ && i == n,
                Err(e) => r == Err::<Event, Error>(e),
            },
    {
        proof {
            use_type_invariant(&*self);
        }
        let mut storage = Storage::new(self.storage.config, 0, 0);
        std::mem::swap(&mut storage, &mut self.storage);
        let r = storage.create_dir(who, dir_name, parent_inode, now, block);
        self.storage = storage;
        r
    }

    /// Removes directory `dir_name` from directory `parent_inode` for `who`,
    /// at time `now`. The request is refused if the parent is no directory
    /// or `who` may not write it, if no entry there has the name, if `who`
    /// may not write the named inode, if that is not a directory, or if it
    /// is not empty; a refused request changes nothing. Otherwise the entry
    /// goes, the directory's listing and inode go, and its inode is pushed
    /// onto the free stack.
    pub fn delete_dir_by_name(&mut self, who: AccountId, dir_name: Vec<u8>, parent_inode: u32, now: u64) -> (r: Result<
        Event,
        Error,
    >)
        ensures
            final(self)@.wf(),
            final(self)@ == old(self)@.delete_dir_state(who, dir_name@, parent_inode, now),
            match old(self)@.delete_dir_result(who, dir_name@, parent_inode) {
                Ok(t) => r matches Ok(Event::DirectoryDeleted(w, nm, i)) && w == who && nm@ == dir_name@ && i == t,
                Err(e) => r == Err::<Event, Error>(e),
            },
    {
        proof {
            use_type_invariant(&*self);
        }
        let mut storage = Storage::new(self.storage.config, 0, 0);
        std::mem::swap(&mut storage, &mut self.storage);
        let r = storage.delete_dir_by_name(who, dir_name, parent_inode, now);
        self.storage = storage;
        r
    }

    /// Creates file `filename` holding `file_content` in directory
    /// `parent_inode` for `who`, at time `now` in block `block`. The new file
    /// takes the most recently freed inode, or else the counter's; the
    /// request is refused if that inode is not below the limit on inodes,
    /// if the file would take the total size past its limit, if the
    /// contents are too large, if the name is too long, if the parent is no
    /// directory or `who` may not write it, or if the name is taken there; a
    /// refused request changes nothing. The size of the contents is added to
    /// the total.
    pub fn create_file(
        &mut self,
        who: AccountId,
        filename: Vec<u8>,
        file_content: Vec<u8>,
        parent_inode: u32,
        now: u64,
        block: u64,
    ) -> (r: Result<Event, Error>)
        ensures
            final(self)@.wf(),
            final(self)@ == old(self)@.create_file_state(who, filename@, file_content@, parent_inode, now, block),
            match old(self)@.create_file_result(who, filename@, file_content@, parent_inode) {
                Ok(n) => r matches Ok(Event::FileCreated(w, nm, i, p)) && w == who && nm@ == filename@ && i == n
                    && p == parent_inode,
                Err(e) => r == Err::<Event, Error>(e),
            },
    {
        proof {
            use_type_invariant(&*self);
        }
        let mut storage = Storage::new(self.storage.config, 0, 0);
        std::mem::swap(&mut storage, &mut self.storage);
        let r = storage.create_file(who, filename, file_content, parent_inode, now, block);
        self.storage = storage;
        r
    }

    /// Removes file `filename` from directory `parent_inode` for `who`, at
    /// time `now`. The request is refused if the parent is no directory or
    /// `who` may not write it, if no entry there has the name, if `who` may
    /// not write the named inode, or if that is not a regular file; a refused
    /// request changes nothing. Otherwise the entry, the contents and the
    /// inode go, the inode is pushed onto the free stack, and the file's size
    /// leaves the total.
    pub fn delete_file_by_name(&mut self, who: AccountId, filename: Vec<u8>, parent_inode: u32, now: u64) -> (r: Result<
        Event,
        Error,
    >)
        ensures
            final(self)@.wf(),
            final(self)@ == old(self)@.delete_file_state(who, filename@, parent_inode, now),
            match old(self)@.delete_file_result(who, filename@, parent_inode) {
                Ok(t) => r matches Ok(Event::FileDeleted(w, nm, i)) && w == who && nm@ == filename@ && i == t,
                Err(e) => r == Err::<Event, Error>(e),
            },
    {
        proof {
            use_type_invariant(&*self);
        }
        let mut storage = Storage::new(self.storage.config, 0, 0);
        std::mem::swap(&mut storage, &mut self.storage);
        let r = storage.delete_file_by_name(who, filename, parent_inode, now);
        self.storage = storage;
        r
    }
}

impl Storage {
    /// The storage is consistent (see `FsView::wf`).
    spec fn wf(&self) -> bool {
        self@.wf()
    }

    /// Nothing stored, the counter at `current_inode`, the total size at
    /// `current_fs_size`.
    fn new(config: Config, current_inode: u32, current_fs_size: u32) -> (r: Storage)
        ensures
            r.wf(),
            r@ == (FsView {
                config,
                inodes: Map::empty(),
                directories: Map::empty(),
                files: Map::empty(),
                current_inode,
                free_inodes: Seq::empty(),
                current_fs_size,
            }),
            r@.files_size() == 0,
    {
        let r = Storage {
            config,
            inodes: HashMap::new(),
            directories: HashMap::new(),
            files: HashMap::new(),
            current_inode,
            free_inodes: Vec::new(),
            current_fs_size,
        };
        assert(r@.directories =~= Map::empty());
        assert(r@.files =~= Map::empty());
        proof {
            lemma_size_below_empty(inode_numbers());
        }
        r
    }

    /// The inode stored under `k`, or the all-zero inode if none is.
    fn inode(&self, k: u32) -> (r: INode)
        ensures
            r == self@.inode(k),
    {
        match self.inodes.get(&k) {
            Some(i) => *i,
            None => INode::default(),
        }
    }

    /// The inode that the next creation takes.
    fn next_inode(&self) -> (r: u32)
        ensures
            r == self@.next_inode(),
    {
        let len = self.free_inodes.len();
        if len == 0 {
            self.current_inode
        } else {
            self.free_inodes[len - 1]
        }
    }

    /// Marks inode `n` as taken.
    fn take_inode(&mut self, n: u32)
        requires
            (old(self)@.free_inodes.len() > 0 && n == old(self)@.free_inodes.last()) || n < u32::MAX,
        ensures
            final(self)@ == old(self)@.take_inode(n),
    {
        let ghost s0 = self@;
        let len = self.free_inodes.len();
        if len > 0 && n == self.free_inodes[len - 1] {
            self.free_inodes.pop();
        } else {
            self.current_inode = n + 1;
        }
        assert(self@ =~= s0.take_inode(n));
    }

    /// Sets the modified and changed times of inode `k`.
    fn touch(&mut self, k: u32, now: u64)
        ensures
            final(self)@ == old(self)@.touch(k, now),
    {
        let ghost s0 = self@;
        let mut inode = self.inode(k);
        inode.modified = now;
        inode.changed = now;
        self.inodes.insert(k, inode);
        assert(self@ =~= s0.touch(k, now));
    }

    /// Inserts `(name, n)` into the listing of `parent` at `index`, the
    /// index where `name` sorts.
    fn add_entry(&mut self, parent: u32, name: Vec<u8>, n: u32, index: usize)
        requires
            sorted_by_name(old(self)@.listing(parent)),
            index == count_before(old(self)@.listing(parent), name@),
        ensures
            final(self)@ == old(self)@.add_entry(parent, name@, n),
    {
        let ghost s0 = self@;
        let ghost nm = name@;
        let mut entries = match self.directories.remove(&parent) {
            Some(v) => v,
            None => Vec::new(),
        };
        assert(listing_view(entries@) =~= s0.listing(parent));
        proof {
            lemma_sorted_partition(s0.listing(parent), nm);
        }
        entries.insert(index, (name, n));
        assert(listing_view(entries@) =~= s0.listing(parent).insert(index as int, (nm, n)));
        self.directories.insert(parent, entries);
        assert(self@ =~= s0.add_entry(parent, nm, n));
    }
    /// Removes the entry at index `i` of the listing of `parent`.
    fn drop_entry(&mut self, parent: u32, i: usize)
        requires
            i < old(self)@.listing(parent).len(),
        ensures
            final(self)@ == old(self)@.drop_entry(parent, i as int),
    {
        let ghost s0 = self@;
        let mut entries = match self.directories.remove(&parent) {
            Some(v) => v,
            None => Vec::new(),
        };
        assert(listing_view(entries@) =~= s0.listing(parent));
        entries.remove(i);
        assert(listing_view(entries@) =~= s0.listing(parent).remove(i as int));
        self.directories.insert(parent, entries);
        assert(self@ =~= s0.drop_entry(parent, i as int));
    }

    /// The checks of a directory creation, in their order, on a file system
    /// that already has its root: the inode that the new directory would
    /// take and the index where its entry would go in the parent's listing,
    /// or the error of the first check that fails.
    fn check_create_dir(&self, who: AccountId, dir_name: &Vec<u8>, parent_inode: u32) -> (r: Result<(u32, usize), Error>)
        requires
            self.wf(),
        ensures
            match self@.check_create_dir(who, dir_name@, parent_inode) {
                Ok(n) => r matches Ok((m, i)) && m == n && i == count_before(self@.listing(parent_inode), dir_name@),
                Err(e) => r == Err::<(u32, usize), Error>(e),
            },
    {
        let n = self.next_inode();
        if self.config.max_num_of_files <= n {
            return Err(Error::TooManyFiles);
        }
        if (self.config.max_filename as usize) < dir_name.len() {
            return Err(Error::NameIsTooBig);
        }
        match self.check_parent(who, dir_name, parent_inode, Error::DirectoryAlreadyExists) {
            Ok(index) => Ok((n, index)),
            Err(e) => Err(e),
        }
    }

    /// The checks on the parent that both creations make: that it is a
    /// directory, that `who` may write it and that `name` is free there.
    /// Gives the index where an entry for `name` goes.
    fn check_parent(&self, who: AccountId, name: &Vec<u8>, parent_inode: u32, taken: Error) -> (r: Result<usize, Error>)
        requires
            self.wf(),
        ensures
            !self@.directories.contains_key(parent_inode) ==> r == Err::<usize, Error>(Error::IncorrectParentInode),
            self@.directories.contains_key(parent_inode) && !self@.inode(parent_inode).can_write(who) ==> r == Err::<
                usize,
                Error,
            >(Error::NotEnoughPermissions),
            self@.directories.contains_key(parent_inode) && self@.inode(parent_inode).can_write(who) ==> {
                if position_of_name(self@.listing(parent_inode), name@) is Some {
                    r == Err::<usize, Error>(taken)
                } else {
                    r matches Ok(i) && i == count_before(self@.listing(parent_inode), name@)
                }
            },
    {
        if !self.directories.contains_key(&parent_inode) {
            return Err(Error::IncorrectParentInode);
        }
        let parent = self.inode(parent_inode);
        if !parent.check_permissions(&who) {
            return Err(Error::NotEnoughPermissions);
        }
        match self.directories.get(&parent_inode) {
            Some(entries) => match search_listing(entries, name) {
                Ok(_) => Err(taken),
                Err(i) => Ok(i),
            },
            None => Err(Error::IncorrectParentInode),
        }
    }

    /// What `Pallet::create_dir` does, on consistent storage.
    fn create_dir(&mut self, who: AccountId, dir_name: Vec<u8>, parent_inode: u32, now: u64, block: u64) -> (r: Result<Event, Error>)
        requires
            old(self).wf(),
        ensures
            final(self).wf(),
            final(self)@ == old(self)@.create_dir_state(who, dir_name@, parent_inode, now, block),
            match old(self)@.create_dir_result(who, dir_name@, parent_inode, now, block) {
                Ok(n) => r matches Ok(Event::DirectoryCreated(w, nm, i)) && w == who && nm@ == dir_name@ && i == n,
                Err(e) => r == Err::<Event, Error>(e),
            },
    {
        let ghost s0 = self@;
        proof {
            create_dir_keeps_wf(s0, who, dir_name@, parent_inode, now, block);
            lemma_with_root_keeps_wf(s0, who, now, block);
        }
        if self.current_inode == 0 {
            self.inodes.insert(0, INode::new(who, now, now, now, block, DIRECTORY, ALL, ALL, ALL));
            self.directories.insert(0, Vec::new());
            self.current_inode = 1;
            assert(listing_view(Seq::<(Vec<u8>, u32)>::empty()) =~= Seq::empty());
        }
        let ghost s1 = s0.with_root(who, now, block);
        assert(self@ =~= s1);
        let (n, index) = match self.check_create_dir(who, &dir_name, parent_inode) {
            Ok(found) => found,
            Err(e) => {
                return Err(e);
            },
        };
        proof {
            lemma_next_inode_fresh(s1);
        }
        self.inodes.insert(n, INode::new(who, now, now, now, block, DIRECTORY, ALL, ALL, READ | EXECUTE));
        self.add_entry(parent_inode, dir_name.clone(), n, index);
        self.touch(parent_inode, now);
        self.directories.insert(n, Vec::new());
        assert(listing_view(Seq::<(Vec<u8>, u32)>::empty()) =~= Seq::empty());
        self.take_inode(n);
        assert(self@ =~= s1.add_dir(who, dir_name@, parent_inode, n, now, block));
        Ok(Event::DirectoryCreated(who, dir_name, n))
    }

    /// The checks of a file creation, in their order: the inode that the new
    /// file would take and the index where its entry would go in the
    /// parent's listing, or the error of the first check that fails.
    fn check_create_file(&self, who: AccountId, filename: &Vec<u8>, file_content: &Vec<u8>, parent_inode: u32) -> (r: Result<
        (u32, usize),
        Error,
    >)
        requires
            self.wf(),
        ensures
            match self@.create_file_result(who, filename@, file_content@, parent_inode) {
                Ok(n) => r matches Ok((m, i)) && m == n && i == count_before(self@.listing(parent_inode), filename@),
                Err(e) => r == Err::<(u32, usize), Error>(e),
            },
    {
        let n = self.next_inode();
        if self.config.max_num_of_files <= n {
            return Err(Error::TooManyFiles);
        }
        if self.config.max_fs_size < self.current_fs_size || ((self.config.max_fs_size - self.current_fs_size) as usize)
            < file_content.len() {
            return Err(Error::NoSpace);
        }
        if (self.config.max_file_size as usize) < file_content.len() {
            return Err(Error::FileIsTooBig);
        }
        if (self.config.max_filename as usize) < filename.len() {
            return Err(Error::NameIsTooBig);
        }
        match self.check_parent(who, filename, parent_inode, Error::FileAlreadyExists) {
            Ok(index) => Ok((n, index)),
            Err(e) => Err(e),
        }
    }

    /// What `Pallet::create_file` does, on consistent storage.
    fn create_file(
        &mut self,
        who: AccountId,
        filename: Vec<u8>,
        file_content: Vec<u8>,
        parent_inode: u32,
        now: u64,
        block: u64,
    ) -> (r: Result<Event, Error>)
        requires
            old(self).wf(),
        ensures
            final(self).wf(),
            final(self)@ == old(self)@.create_file_state(who, filename@, file_content@, parent_inode, now, block),
            match old(self)@.create_file_result(who, filename@, file_content@, parent_inode) {
                Ok(n) => r matches Ok(Event::FileCreated(w, nm, i, p)) && w == who && nm@ == filename@ && i == n
                    && p == parent_inode,
                Err(e) => r == Err::<Event, Error>(e),
            },
    {
        let ghost s0 = self@;
        proof {
            create_file_keeps_wf(s0, who, filename@, file_content@, parent_inode, now, block);
        }
        let (n, index) = match self.check_create_file(who, &filename, &file_content, parent_inode) {
            Ok(found) => found,
            Err(e) => {
                return Err(e);
            },
        };
        proof {
            lemma_next_inode_fresh(s0);
        }
        self.inodes.insert(n, INode::new(who, now, now, now, block, REGULAR, READ | WRITE, READ | WRITE, READ));
        self.add_entry(parent_inode, filename.clone(), n, index);
        self.touch(parent_inode, now);
        let size = file_content.len();
        self.files.insert(n, file_content);
        self.take_inode(n);
        self.current_fs_size = self.current_fs_size + size as u32;
        assert(self@ =~= s0.add_file(who, filename@, file_content@, parent_inode, n, now, block));
        Ok(Event::FileCreated(who, filename, n, parent_inode))
    }

    /// The checks that both deletions make, in their order: that the parent
    /// is a directory that `who` may write, that an entry there has `name`,
    /// that `who` may write the inode it names, and that the inode has mode
    /// `mode`. Gives the entry's index and the inode.
    fn check_unlink(&self, who: AccountId, name: &Vec<u8>, parent_inode: u32, missing: Error, mode: u8, wrong_mode: Error) -> (r: Result<
        (usize, u32),
        Error,
    >)
        requires
            self.wf(),
        ensures
            ({
                let s = self@;
                let pos = position_of_name(s.listing(parent_inode), name@);
                if !s.directories.contains_key(parent_inode) {
                    r == Err::<(usize, u32), Error>(Error::IncorrectParentInode)
                } else if !s.inode(parent_inode).can_write(who) {
                    r == Err::<(usize, u32), Error>(Error::NotEnoughPermissions)
                } else if pos is None {
                    r == Err::<(usize, u32), Error>(missing)
                } else {
                    let i = pos->Some_0;
                    let t = s.listing(parent_inode)[i].1;
                    &&& 0 <= i < s.listing(parent_inode).len()
                    &&& if !s.inode(t).can_write(who) {
                        r == Err::<(usize, u32), Error>(Error::NotEnoughPermissions)
                    } else if s.inode(t).file_mode != mode {
                        r == Err::<(usize, u32), Error>(wrong_mode)
                    } else {
                        r matches Ok((j, u)) && j == i && u == t
                    }
                }
            }),
    {
        if !self.directories.contains_key(&parent_inode) {
            return Err(Error::IncorrectParentInode);
        }
        let parent = self.inode(parent_inode);
        if !parent.check_permissions(&who) {
            return Err(Error::NotEnoughPermissions);
        }
        let ghost name_view = name@;
        let (index, target) = match self.directories.get(&parent_inode) {
            Some(entries) => match search_listing(entries, name) {
                Ok(i) => {
                    proof {
                        lemma_position_of_name(listing_view(entries@), name_view);
                    }
                    (i, entries[i].1)
                },
                Err(_) => {
                    return Err(missing);
                },
            },
            None => {
                return Err(Error::IncorrectParentInode);
            },
        };
        let inode = self.inode(target);
        if !inode.check_permissions(&who) {
            return Err(Error::NotEnoughPermissions);
        }
        if inode.file_mode != mode {
            return Err(wrong_mode);
        }
        Ok((index, target))
    }

    /// The checks of a directory deletion, in their order: the index of the
    /// entry to remove and the inode of the directory, or the error of the
    /// first check that fails.
    fn check_delete_dir(&self, who: AccountId, dir_name: &Vec<u8>, parent_inode: u32) -> (r: Result<(usize, u32), Error>)
        requires
            self.wf(),
        ensures
            match self@.delete_dir_result(who, dir_name@, parent_inode) {
                Ok(t) => r matches Ok((i, u)) && u == t && position_of_name(self@.listing(parent_inode), dir_name@)
                    == Some(i as int),
                Err(e) => r == Err::<(usize, u32), Error>(e),
            },
    {
        let (index, target) = match self.check_unlink(
            who,
            dir_name,
            parent_inode,
            Error::NoDirectoryWithSuchName,
            DIRECTORY,
            Error::NotDirectory,
        ) {
            Ok(found) => found,
            Err(e) => {
                return Err(e);
            },
        };
        let is_empty = match self.directories.get(&target) {
            Some(entries) => entries.len() == 0,
            None => true,
        };
        if !is_empty {
            return Err(Error::DirIsNotEmpty);
        }
        Ok((index, target))
    }

    /// What `Pallet::delete_dir_by_name` does, on consistent storage.
    fn delete_dir_by_name(&mut self, who: AccountId, dir_name: Vec<u8>, parent_inode: u32, now: u64) -> (r: Result<Event, Error>)
        requires
            old(self).wf(),
        ensures
            final(self).wf(),
            final(self)@ == old(self)@.delete_dir_state(who, dir_name@, parent_inode, now),
            match old(self)@.delete_dir_result(who, dir_name@, parent_inode) {
                Ok(t) => r matches Ok(Event::DirectoryDeleted(w, nm, i)) && w == who && nm@ == dir_name@ && i == t,
                Err(e) => r == Err::<Event, Error>(e),
            },
    {
        let ghost s0 = self@;
        proof {
            delete_dir_keeps_wf(s0, who, dir_name@, parent_inode, now);
        }
        let (index, target) = match self.check_delete_dir(who, &dir_name, parent_inode) {
            Ok(found) => found,
            Err(e) => {
                return Err(e);
            },
        };
        proof {
            lemma_position_of_name(s0.listing(parent_inode), dir_name@);
        }
        self.drop_entry(parent_inode, index);
        self.directories.remove(&target);
        self.touch(parent_inode, now);
        self.inodes.remove(&target);
        self.free_inodes.push(target);
        assert(self@ =~= s0.unlink(parent_inode, index as int, target, now, true, false));
        Ok(Event::DirectoryDeleted(who, dir_name, target))
    }

    /// The checks of a file deletion, in their order: the index of the entry
    /// to remove and the inode of the file, or the error of the first check
    /// that fails.
    fn check_delete_file(&self, who: AccountId, filename: &Vec<u8>, parent_inode: u32) -> (r: Result<(usize, u32), Error>)
        requires
            self.wf(),
        ensures
            match self@.delete_file_result(who, filename@, parent_inode) {
                Ok(t) => r matches Ok((i, u)) && u == t && position_of_name(self@.listing(parent_inode), filename@)
                    == Some(i as int),
                Err(e) => r == Err::<(usize, u32), Error>(e),
            },
    {
        self.check_unlink(who, filename, parent_inode, Error::NoFileWithSuchName, REGULAR, Error::NotFile)
    }

    /// What `Pallet::delete_file_by_name` does, on consistent storage.
    fn delete_file_by_name(&mut self, who: AccountId, filename: Vec<u8>, parent_inode: u32, now: u64) -> (r: Result<Event, Error>)
        requires
            old(self).wf(),
        ensures
            final(self).wf(),
            final(self)@ == old(self)@.delete_file_state(who, filename@, parent_inode, now),
            match old(self)@.delete_file_result(who, filename@, parent_inode) {
                Ok(t) => r matches Ok(Event::FileDeleted(w, nm, i)) && w == who && nm@ == filename@ && i == t,
                Err(e) => r == Err::<Event, Error>(e),
            },
    {
        let ghost s0 = self@;
        proof {
            delete_file_keeps_wf(s0, who, filename@, parent_inode, now);
        }
        let (index, target) = match self.check_delete_file(who, &filename, parent_inode) {
            Ok(found) => found,
            Err(e) => {
                return Err(e);
            },
        };
        proof {
            lemma_position_of_name(s0.listing(parent_inode), filename@);
        }
        let removed_size = match self.files.get(&target) {
            Some(content) => content.len(),
            None => 0,
        };
        proof {
            lemma_files_size_change(s0.files, s0.files, target);
        }
        assert(removed_size == file_size(s0.files, target));
        self.drop_entry(parent_inode, index);
        self.files.remove(&target);
        assert(self@.files =~= s0.files.remove(target));
        self.touch(parent_inode, now);
        self.current_fs_size = self.current_fs_size - removed_size as u32;
        self.inodes.remove(&target);
        self.free_inodes.push(target);
        assert(self@ =~= (FsView {
            current_fs_size: (s0.current_fs_size - file_size(s0.files, target)) as u32,
            ..s0.unlink(parent_inode, index as int, target, now, false, true)
        }));
        Ok(Event::FileDeleted(who, filename, target))
    }
}

} // verus!
