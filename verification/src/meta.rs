//! Metadata of files and directories, and usage figures of a store.
use crate::path::{file_name, file_name_of};
use vstd::prelude::*;

verus! {

/// A point in time: whole seconds since the Unix epoch and the nanoseconds past them.
#[derive(Clone, Copy, Debug, PartialEq, Eq, PartialOrd, Ord, Hash, Structural)]
pub struct Timestamp {
    pub secs: i64,
    pub nanos: u32,
}

/// Metadata for a returned file: its path, kind, times and size.
#[derive(Debug, Eq, PartialOrd, Ord)]
pub struct Metadata {
    pub path: String,
    pub is_dir: bool,
    pub mtime: Option<Timestamp>,
    pub atime: Option<Timestamp>,
    pub ctime: Option<Timestamp>,
    pub size: u64,
}

impl Clone for Metadata {
    fn clone(&self) -> (res: Self)
        ensures
            res == *self,
    {
        Metadata {
            path: self.path.clone(),
            is_dir: self.is_dir,
            mtime: self.mtime,
            atime: self.atime,
            ctime: self.ctime,
            size: self.size,
        }
    }
}

impl Metadata {
    /// Whether two metadata records agree in every field.
    pub open spec fn same_as(&self, other: &Metadata) -> bool {
        &&& self.path@ == other.path@
        &&& self.is_dir == other.is_dir
        &&& self.mtime == other.mtime
        &&& self.atime == other.atime
        &&& self.ctime == other.ctime
        &&& self.size == other.size
    }

    /// Builds a metadata record from its fields.
    pub fn new(
        path: String,
        is_dir: bool,
        mtime: Option<Timestamp>,
        atime: Option<Timestamp>,
        ctime: Option<Timestamp>,
        size: u64,
    ) -> (res: Metadata)
        ensures
            res.path == path,
            res.is_dir == is_dir,
            res.mtime == mtime,
            res.atime == atime,
            res.ctime == ctime,
            res.size == size,
    {
        Metadata { path, is_dir, mtime, atime, ctime, size }
    }

    /// The final component of the path when it names an entry, empty otherwise.
    pub fn name(&self) -> (res: String)
        ensures
            res@ == file_name(self.path@),
    {
        file_name_of(self.path.as_str())
    }

    /// The full path of the entry.
    pub fn path(&self) -> (res: &String)
        ensures
            res == &self.path,
    {
        &self.path
    }

    /// Whether the entry is a directory.
    pub fn is_dir(&self) -> (res: bool)
        ensures
            res == self.is_dir,
    {
        self.is_dir
    }

    /// Whether the entry is a file: symbolic links are not told apart, so this is the
    /// inverse of `is_dir`.
    pub fn is_file(&self) -> (res: bool)
        ensures
            res == !self.is_dir,
    {
        !self.is_dir
    }

    /// The last modification time, where the store reports one.
    pub fn mtime(&self) -> (res: Option<Timestamp>)
        ensures
            res == self.mtime,
    {
        self.mtime
    }

    /// The last access time, where the store reports one.
    pub fn atime(&self) -> (res: Option<Timestamp>)
        ensures
            res == self.atime,
    {
        self.atime
    }

    /// The creation time, where the store reports one.
    pub fn ctime(&self) -> (res: Option<Timestamp>)
        ensures
            res == self.ctime,
    {
        self.ctime
    }

    /// The size of the entry in bytes.
    pub fn size(&self) -> (res: u64)
        ensures
            res == self.size,
    {
        self.size
    }
}

impl PartialEq for Metadata {
    fn eq(&self, other: &Self) -> (res: bool) {
        self.path == other.path && self.is_dir == other.is_dir && self.mtime == other.mtime
            && self.atime == other.atime && self.ctime == other.ctime && self.size == other.size
    }
}

impl vstd::std_specs::cmp::PartialEqSpecImpl for Metadata {
    open spec fn obeys_eq_spec() -> bool {
        true
    }

    open spec fn eq_spec(&self, other: &Self) -> bool {
        self.same_as(other)
    }
}

/// The permission bits of a Unix mode: the file-type bits of a directory or a regular
/// file, and read (and, where writable, write) access for everyone.
pub open spec fn unix_mode(is_dir: bool, can_write: bool) -> int {
    (if is_dir {
        0o040000u16
    } else {
        0o100000u16
    }) + (if can_write {
        0o666u16
    } else {
        0o444u16
    })
}

/// Extended metadata of an entry, with ownership and link details.
#[derive(Debug, Default, PartialEq, Eq, PartialOrd, Ord)]
pub struct ExtMetadata {
    /// The full path of the file.
    pub path: String,
    /// If the item is a directory.
    pub is_dir: bool,
    /// Last modification time.
    pub mtime: Option<Timestamp>,
    /// Last access time.
    pub atime: Option<Timestamp>,
    /// Last status change time.
    pub ctime: Option<Timestamp>,
    /// Owning user id.
    pub uid: Option<u32>,
    /// Owning group id.
    pub gid: Option<u32>,
    /// Owning user name.
    pub user: Option<String>,
    /// Owning group name.
    pub group: Option<String>,
    /// Inode number.
    pub inode: u64,
    /// Device id.
    pub device_id: u64,
    /// Size of the node.
    pub size: u64,
    /// Number of hard links to this node.
    pub links: u64,
    /// If the source can be written to.
    pub can_write: bool,
}

impl ExtMetadata {
    /// The Unix mode of the entry: directory or regular-file type bits, with `0o666`
    /// permissions when it can be written and `0o444` otherwise.
    pub fn unix_perms(&self) -> (perms: u16)
        ensures
            perms == unix_mode(self.is_dir, self.can_write),
    {
        let mut perms: u16 = if self.is_dir {
            0o040000
        } else {
            0o100000
        };
        if self.can_write {
            perms = perms | 0o666;
        } else {
            perms = perms | 0o444;
        }
        assert(0o040000u16 | 0o666u16 == 0o040000u16 + 0o666u16) by (bit_vector);
        assert(0o040000u16 | 0o444u16 == 0o040000u16 + 0o444u16) by (bit_vector);
        assert(0o100000u16 | 0o666u16 == 0o100000u16 + 0o666u16) by (bit_vector);
        assert(0o100000u16 | 0o444u16 == 0o100000u16 + 0o444u16) by (bit_vector);
        perms
    }

    /// The final component of the path when it names an entry, empty otherwise.
    pub fn name(&self) -> (res: String)
        ensures
            res@ == file_name(self.path@),
    {
        file_name_of(self.path.as_str())
    }

    /// The same metadata with `can_write` set to `value`.
    pub fn can_write(self, value: bool) -> (res: ExtMetadata)
        ensures
            res == (ExtMetadata { can_write: value, ..self }),
    {
        ExtMetadata { can_write: value, ..self }
    }
}

/// The current usage of a store, in bytes.
#[derive(Clone, Copy, Debug, PartialEq, Eq, Structural)]
pub struct DataUsage {
    /// The bytes the store holds in all.
    pub max_bytes: u64,
    /// The bytes in use.
    pub used_bytes: u64,
    /// The bytes still free.
    pub free_bytes: u64,
}

} // verus!
