//! Stores on the local disk: where their paths lead and how their usage is read.
use crate::config::{new_backend_id, DataMode, LocalConfig};
use crate::meta::{DataUsage, Metadata, Timestamp};
use crate::operator::{DataError, DataInner, Removal};
use crate::path::{
    force_joined, is_prefix_of, join_force, path_components, path_components_of,
    relative_path, relative_to, starts_with_parts,
};
use crate::text::{chars_of, seqs_of, string_of};
use vstd::prelude::*;

verus! {

/// A mounted disk as the system reports it.
#[derive(Debug, PartialEq, Eq)]
pub struct DiskStat {
    /// Where the disk is mounted.
    pub mount_point: String,
    /// The bytes the disk holds in all.
    pub total_space: u64,
    /// The bytes still free.
    pub available_space: u64,
}

/// Whether the disk is mounted at or above `path`, component by component.
pub open spec fn holds_path(disk: DiskStat, path: Seq<char>) -> bool {
    is_prefix_of(path_components(disk.mount_point@), path_components(path))
}

/// A disk holds a path only component by component: each component of its mount point is
/// the path's component at the same place, so a mount whose last name is merely the start of
/// the path's name there (`/mnt/disk1` against `/mnt/disk10/store`) does not hold it.
pub proof fn held_paths_agree_with_mount(disk: DiskStat, path: Seq<char>)
    ensures
        holds_path(disk, path) ==> path_components(disk.mount_point@).len() <= path_components(path).len(),
        holds_path(disk, path) ==> forall|i: int| 0 <= i < path_components(disk.mount_point@).len()
            ==> #[trigger] path_components(disk.mount_point@)[i] == path_components(path)[i],
{
    let mc = path_components(disk.mount_point@);
    let pc = path_components(path);
    if holds_path(disk, path) {
        assert forall|i: int| 0 <= i < mc.len() implies #[trigger] mc[i] == pc[i] by {
            assert(pc.take(mc.len() as int)[i] == pc[i]);
        }
    }
}

/// A disk holds every path below its mount point: its mount point with any named components
/// pushed onto it.
pub proof fn mount_holds_paths_below_it(disk: DiskStat, parts: Seq<Seq<char>>)
    requires
        crate::path::all_named(parts),
    ensures
        holds_path(disk, crate::path::push_parts(disk.mount_point@, parts)),
{
    crate::path::lemma_push_parts_components(disk.mount_point@, parts);
    let mc = path_components(disk.mount_point@);
    assert((mc + parts).take(mc.len() as int) =~= mc);
}

/// Whether disk `i` is the first of `disks` that holds `path`.
pub open spec fn is_first_holder(disks: Seq<DiskStat>, path: Seq<char>, i: int) -> bool {
    &&& 0 <= i < disks.len()
    &&& holds_path(disks[i], path)
    &&& forall|j: int| 0 <= j < i ==> !holds_path(#[trigger] disks[j], path)
}

/// The usage of a disk: its size, the bytes in use and the bytes free.
pub open spec fn usage_of_disk(disk: DiskStat) -> DataUsage {
    DataUsage {
        max_bytes: disk.total_space,
        used_bytes: (disk.total_space - disk.available_space) as u64,
        free_bytes: disk.available_space,
    }
}

/// The bytes in use and the bytes free add up to the size of the disk.
pub proof fn usage_adds_up(disk: DiskStat)
    requires
        disk.available_space <= disk.total_space,
    ensures
        usage_of_disk(disk).used_bytes + usage_of_disk(disk).free_bytes == usage_of_disk(
            disk,
        ).max_bytes,
{
}

/// A store under a directory of the local disk.
#[derive(Debug)]
pub struct LocalBackend {
    pub id: u128,
    pub path: String,
    pub config: LocalConfig,
}

impl Clone for LocalBackend {
    fn clone(&self) -> (res: Self)
        ensures
            res == *self,
    {
        LocalBackend { id: self.id, path: self.path.clone(), config: self.config.clone() }
    }
}

impl LocalBackend {
    /// Opens the store that `config` describes, under a fresh random identity.
    pub fn new(config: LocalConfig) -> (res: Self)
        ensures
            res.path@ == config.path@,
            res.config == config,
    {
        LocalBackend::with_id(new_backend_id(), config)
    }

    /// The store that `config` describes, with the given identity.
    pub fn with_id(id: u128, config: LocalConfig) -> (res: Self)
        ensures
            res.id == id,
            res.path@ == config.path@,
            res.config == config,
    {
        let path = string_of(&chars_of(config.path.as_str()));
        LocalBackend { id, path, config }
    }

    /// Where `item` lies on the disk: below the store's directory, whatever root `item` has.
    pub fn realpath(&self, item: &str) -> (res: String)
        ensures
            res@ == force_joined(self.path@, item@),
    {
        join_force(self.path.as_str(), item)
    }

    /// `abs` as the store names it: the part below `path`, led by `/`; `abs` itself when it
    /// does not lie below `path`.
    pub fn get_relative(path: &str, abs: &str) -> (res: String)
        ensures
            res@ == relative_to(path@, abs@),
    {
        relative_path(path, abs)
    }

    /// The metadata of the entry at `abs` on the disk, named as the store names it.
    pub fn describe(
        &self,
        abs: &str,
        is_dir: bool,
        modified: Option<Timestamp>,
        accessed: Option<Timestamp>,
        created: Option<Timestamp>,
        len: u64,
    ) -> (res: Metadata)
        ensures
            res.path@ == relative_to(self.path@, abs@),
            res.is_dir == is_dir,
            res.mtime == modified,
            res.atime == accessed,
            res.ctime == created,
            res.size == len,
    {
        let path = LocalBackend::get_relative(self.path.as_str(), abs);
        Metadata::new(path, is_dir, modified, accessed, created, len)
    }

    /// The first of `disks` mounted at or above the store's directory.
    pub fn select_disk(&self, disks: &Vec<DiskStat>) -> (res: Option<usize>)
        ensures
            match res {
                Some(i) => is_first_holder(disks@, self.path@, i as int),
                None => forall|j: int| 0 <= j < disks@.len() ==> !holds_path(#[trigger] disks@[j], self.path@),
            },
    {
        let mine = path_components_of(&chars_of(self.path.as_str()));
        let mut i: usize = 0;
        while i < disks.len()
            invariant
                i <= disks.len(),
                seqs_of(mine@) == path_components(self.path@),
                forall|j: int| 0 <= j < i ==> !holds_path(#[trigger] disks@[j], self.path@),
            decreases disks.len() - i,
        {
            let mount = path_components_of(&chars_of(disks[i].mount_point.as_str()));
            if starts_with_parts(&mount, &mine) {
                return Some(i);
            }
            i = i + 1;
        }
        None
    }

    /// The usage of the disk that holds the store: its size, the bytes used and the bytes
    /// free; `Unsupported` when no disk holds it.
    pub fn usage(&self, disks: &Vec<DiskStat>) -> (res: Result<DataUsage, DataError>)
        requires
            forall|i: int|
                is_first_holder(disks@, self.path@, i) ==> disks@[i].available_space
                    <= disks@[i].total_space,
        ensures
            match res {
                Ok(u) => exists|i: int|
                    is_first_holder(disks@, self.path@, i) && u == usage_of_disk(#[trigger] disks@[i]),
                Err(e) => e is Unsupported && forall|j: int|
                    0 <= j < disks@.len() ==> !holds_path(#[trigger] disks@[j], self.path@),
            },
    {
        match self.select_disk(disks) {
            Some(i) => {
                let disk = &disks[i];
                let max_bytes: u64 = disk.total_space;
                let free_bytes: u64 = disk.available_space;
                assert(is_first_holder(disks@, self.path@, i as int));
                Ok(DataUsage { max_bytes, used_bytes: max_bytes - free_bytes, free_bytes })
            },
            None => Err(DataError::Unsupported),
        }
    }

    /// The store as an operator's inner part: it can be read, written and opened for random
    /// access.
    pub fn to_inner<R, W, F>(self, reader: R, writer: W, full: F) -> (res: DataInner<R, W, F>)
        ensures
            res.id == self.id,
            res.info == DataMode::Local(self.config),
            res.reader == Some(reader),
            res.writer == Some(writer),
            res.full == Some(full),
    {
        DataInner {
            id: self.id,
            info: DataMode::Local(self.config),
            reader: Some(reader),
            writer: Some(writer),
            full: Some(full),
        }
    }
}

/// An entry of a local store, named by the store's directory `abs` and its own `path`.
#[derive(Debug)]
pub struct LocalHandle {
    pub abs: String,
    pub path: String,
    pub is_dir: bool,
}

impl LocalHandle {
    /// A handle on the entry `path` of the store under `abs`.
    pub fn new(abs: String, path: String, is_dir: bool) -> (res: Self)
        ensures
            res.abs == abs,
            res.path == path,
            res.is_dir == is_dir,
    {
        LocalHandle { abs, path, is_dir }
    }

    /// What removing the entry takes, at its place below the store's directory: a
    /// directory is removed with all it holds.
    pub fn removal(&self) -> (res: Removal)
        ensures
            self.is_dir ==> (res matches Removal::Tree(p) && p@ == force_joined(self.abs@, self.path@)),
            !self.is_dir ==> (res matches Removal::Single(p) && p@ == force_joined(
                self.abs@,
                self.path@,
            )),
    {
        let path = join_force(self.abs.as_str(), self.path.as_str());
        if self.is_dir {
            Removal::Tree(path)
        } else {
            Removal::Single(path)
        }
    }

    /// The source and target of renaming the entry to `dest`; the target is taken below the
    /// entry's own place.
    pub fn rename_paths(&self, dest: &str) -> (res: (String, String))
        ensures
            res.0@ == force_joined(self.abs@, self.path@),
            res.1@ == force_joined(force_joined(self.abs@, self.path@), dest@),
    {
        let path = join_force(self.abs.as_str(), self.path.as_str());
        let dst = join_force(path.as_str(), dest);
        (path, dst)
    }
}

/// The directories still to be read while listing a local directory.
pub struct LocalWalk {
    /// The directories not read yet; the last one is read next.
    pub pending: Vec<String>,
    /// Whether the listing goes into subdirectories.
    pub recursive: bool,
}

impl LocalWalk {
    /// A listing that starts by reading `root`.
    pub fn new(root: String, recursive: bool) -> (res: Self)
        ensures
            res.pending@ == seq![root],
            res.recursive == recursive,
    {
        let mut pending: Vec<String> = Vec::new();
        pending.push(root);
        LocalWalk { pending, recursive }
    }

    /// The next directory to read, if any is left.
    pub fn next_dir(&mut self) -> (res: Option<String>)
        ensures
            old(self).pending@.len() == 0 ==> res is None && final(self).pending@ == old(
                self,
            ).pending@,
            old(self).pending@.len() > 0 ==> res == Some(old(self).pending@.last())
                && final(self).pending@ == old(self).pending@.drop_last(),
            final(self).recursive == old(self).recursive,
    {
        self.pending.pop()
    }

    /// Takes note of an entry found in a directory: a subdirectory is read later exactly
    /// when the listing is recursive.
    pub fn found(&mut self, path: String, is_dir: bool)
        ensures
            old(self).recursive && is_dir ==> final(self).pending@ == old(self).pending@.push(path),
            !(old(self).recursive && is_dir) ==> final(self).pending@ == old(self).pending@,
            final(self).recursive == old(self).recursive,
    {
        if self.recursive && is_dir {
            self.pending.push(path);
        }
    }
}

} // verus!
