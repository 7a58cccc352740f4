//! File identity: enough filesystem metadata to decide whether a path still
//! names the same file content that was parsed earlier.

use vstd::prelude::*;

verus! {

/// Identity of an open file, captured from its descriptor at the moment the
/// file was opened for parsing: device id, inode, size, and modification
/// time at nanosecond precision.
///
/// Two identities are equal iff all five fields match exactly; there is no
/// tolerance window. A file rewritten with byte-identical size and an
/// identical second+nanosecond modification time on the same device/inode is
/// not detected as changed — an accepted limitation of this scheme, which in
/// exchange decides staleness without reading file contents.
#[derive(Clone, Copy, Debug, PartialEq, Eq, Structural)]
pub struct FileIdentity {
    /// Device id of the filesystem holding the file.
    pub dev: u64,
    /// Inode number of the file.
    pub ino: u64,
    /// Size of the file in bytes.
    pub size: i64,
    /// Modification time, whole seconds.
    pub mtime_sec: i64,
    /// Modification time, nanosecond part.
    pub mtime_nsec: i64,
}

impl FileIdentity {
    /// Exact five-field comparison with another identity.
    pub fn matches(&self, other: &FileIdentity) -> (r: bool)
        ensures
            r == (*self == *other),
    {
        self.dev == other.dev && self.ino == other.ino && self.size == other.size
            && self.mtime_sec == other.mtime_sec && self.mtime_nsec == other.mtime_nsec
    }
}

} // verus!
