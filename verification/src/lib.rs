//! A concurrent filesystem walker, verified at its core.
//!
//! The library models a filesystem as an in-memory tree of entries and
//! verifies the walk itself: which entries are visited, in what relation
//! directory-enter and directory-exit callbacks stand, and how the
//! worker-coordination protocol (work queue plus active-worker counter)
//! decides that a walk is globally finished. A thin unverified shell may
//! drive the same protocol against a real filesystem with real threads.

pub mod active;
pub mod countingvisitor;
pub mod laws;
pub mod meta;
pub mod queue;
pub mod visitor;
pub mod walk;

pub use active::ActiveState;
pub use countingvisitor::CountingVisitor;
pub use queue::WorkQueue;
pub use meta::EntryMeta;
pub use meta::FileType;
pub use visitor::VisitCallback;
pub use walk::Event;
pub use walk::FsNode;
pub use walk::FsTree;
pub use walk::visit_paths;
