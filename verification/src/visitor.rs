//! The callback capability the walker consumes.
//!
//! A visitor supplies four hooks, one per kind of encounter. So that the
//! walk itself can be verified, each hook's effect on the visitor's state
//! is described by a companion spec function that the implementor defines:
//! `on_file_visit` must turn the visitor into `after_file_visit(..)` of its
//! old state, and `on_dir_enter` must answer exactly `descend(..)` of its
//! old state. The walker promises nothing about the order of hooks on
//! distinct entries beyond what its own contract states, and hooks must not
//! re-enter the walker.

use vstd::prelude::*;

use crate::meta::EntryMeta;

verus! {

/// Set of functions evaluated during a walk.
pub trait VisitCallback: Sized {
    /// Whether the visitor, in the given state, asks the walker to descend
    /// into the directory at `path` with metadata `meta`. The visitor is the
    /// sole gate for descent; the walker imposes no filter of its own.
    spec fn descend(&self, path: Seq<char>, meta: EntryMeta) -> bool;

    /// The visitor's state after `on_file_visit(path, meta)`.
    spec fn after_file_visit(&self, path: Seq<char>, meta: EntryMeta) -> Self;

    /// The visitor's state after `on_nonfile_visit(path, meta)`.
    spec fn after_nonfile_visit(&self, path: Seq<char>, meta: EntryMeta) -> Self;

    /// The visitor's state after `on_dir_enter(path, meta)`.
    spec fn after_dir_enter(&self, path: Seq<char>, meta: EntryMeta) -> Self;

    /// The visitor's state after `on_dir_exit(path, meta)`.
    spec fn after_dir_exit(&self, path: Seq<char>, meta: EntryMeta) -> Self;

    /// Called when the walk encounters a regular file.
    fn on_file_visit(&mut self, path: String, meta: &EntryMeta)
        ensures
            *final(self) == old(self).after_file_visit(path@, *meta),
    ;

    /// Called when the walk encounters a non-file, non-directory entry
    /// (symbolic link, device, fifo, socket, ...).
    fn on_nonfile_visit(&mut self, path: String, meta: &EntryMeta)
        ensures
            *final(self) == old(self).after_nonfile_visit(path@, *meta),
    ;

    /// Called before a directory's children are enumerated. The directory is
    /// enumerated exactly when `true` is returned.
    fn on_dir_enter(&mut self, path: String, meta: &EntryMeta) -> (r: bool)
        ensures
            r == old(self).descend(path@, *meta),
            *final(self) == old(self).after_dir_enter(path@, *meta),
    ;

    /// Called after the walk finishes a directory: once per directory that
    /// received `on_dir_enter`, whether its enumeration completed, failed,
    /// or was skipped.
    fn on_dir_exit(&mut self, path: String, meta: &EntryMeta)
        ensures
            *final(self) == old(self).after_dir_exit(path@, *meta),
    ;
}

} // verus!
