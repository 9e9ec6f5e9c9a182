//! Entry metadata as the walker sees it: a classification of the entry's
//! file type together with its device and inode numbers, captured without
//! following a terminal symbolic link (lstat semantics). A symbolic link to
//! a directory therefore classifies as `Other`, never as `Directory`.

use vstd::prelude::*;

verus! {

/// The three classifications the walker distinguishes.
#[derive(Clone, Copy, Debug, PartialEq, Eq, Structural)]
pub enum FileType {
    /// A regular file.
    Regular,
    /// A directory.
    Directory,
    /// Anything else: symbolic link, device node, fifo, socket, ...
    Other,
}

/// Stat-like information about one entry, captured once per entry.
#[derive(Clone, Copy, Debug, PartialEq, Eq, Structural)]
pub struct EntryMeta {
    /// The entry's classification.
    pub ftype: FileType,
    /// Identifier of the device (filesystem) holding the entry.
    pub dev: u64,
    /// Inode number of the entry on its device.
    pub ino: u64,
}

impl EntryMeta {
    /// True iff the entry is a directory.
    pub open spec fn is_dir(self) -> bool {
        self.ftype == FileType::Directory
    }

    /// True iff the entry is a regular file.
    pub open spec fn is_file(self) -> bool {
        self.ftype == FileType::Regular
    }
}

} // verus!
