//! The reference visitor: counts regular files and restricts descent to the
//! devices observed on the seed paths, so a walk seeded on one filesystem
//! never crosses onto another.

use vstd::prelude::*;

use crate::meta::EntryMeta;
use crate::visitor::VisitCallback;

verus! {

/// A visitor that counts the files encountered during a walk and descends
/// only into directories whose device id is among `root_devnos`.
#[derive(Debug)]
pub struct CountingVisitor {
    /// A count of the files encountered during the walk so far.
    pub file_count: u64,
    /// The device ids of the seed paths; descent is limited to these.
    pub root_devnos: Vec<u64>,
}

impl CountingVisitor {
    /// Construct a visitor that starts at zero and descends only into the
    /// given devices.
    pub fn new(root_devnos: Vec<u64>) -> (v: CountingVisitor)
        ensures
            v.file_count == 0,
            v.root_devnos@ == root_devnos@,
    {
        CountingVisitor { file_count: 0, root_devnos }
    }

    /// The number of files found during the walk so far.
    pub fn get_filecount(&mut self) -> (r: u64)
        ensures
            r == old(self).file_count,
            *final(self) == *old(self),
    {
        self.file_count
    }

    /// True iff `dev` is one of the seed devices.
    pub fn has_device(&self, dev: u64) -> (r: bool)
        ensures
            r == self.root_devnos@.contains(dev),
    {
        let mut i: usize = 0;
        while i < self.root_devnos.len()
            invariant
                i <= self.root_devnos@.len(),
                forall|k: int| 0 <= k < i ==> self.root_devnos@[k] != dev,
            decreases self.root_devnos@.len() - i,
        {
            if self.root_devnos[i] == dev {
                return true;
            }
            i = i + 1;
        }
        false
    }
}

impl VisitCallback for CountingVisitor {
    open spec fn descend(&self, path: Seq<char>, meta: EntryMeta) -> bool {
        self.root_devnos@.contains(meta.dev)
    }

    open spec fn after_file_visit(&self, path: Seq<char>, meta: EntryMeta) -> Self {
        CountingVisitor {
            file_count: if self.file_count < u64::MAX {
                (self.file_count + 1) as u64
            } else {
                self.file_count
            },
            root_devnos: self.root_devnos,
        }
    }

    open spec fn after_nonfile_visit(&self, path: Seq<char>, meta: EntryMeta) -> Self {
        *self
    }

    open spec fn after_dir_enter(&self, path: Seq<char>, meta: EntryMeta) -> Self {
        *self
    }

    open spec fn after_dir_exit(&self, path: Seq<char>, meta: EntryMeta) -> Self {
        *self
    }

    fn on_file_visit(&mut self, path: String, meta: &EntryMeta) {
        if self.file_count < u64::MAX {
            self.file_count = self.file_count + 1;
        }
    }

    fn on_nonfile_visit(&mut self, path: String, meta: &EntryMeta) {
    }

    fn on_dir_enter(&mut self, path: String, meta: &EntryMeta) -> (r: bool) {
        self.has_device(meta.dev)
    }

    fn on_dir_exit(&mut self, path: String, meta: &EntryMeta) {
    }
}

} // verus!
