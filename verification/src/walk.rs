//! The walk itself, verified against an in-memory model of a filesystem.
//!
//! A [`FsTree`] is a snapshot of the entries a walk can encounter: every
//! node carries its path, its lstat-style metadata, whether the metadata
//! probe succeeds, whether directory enumeration succeeds, and the indices
//! of its children. Children always carry an index greater than their
//! parent's, which is how a snapshot of a filesystem (an acyclic hierarchy)
//! is laid out and what makes every walk of it finite.
//!
//! The meaning of a walk is the pair of spec functions [`walk_node`] and
//! [`walk_list`]: given the tree, the pending entries and the visitor's
//! state, they say exactly which callback events fire, in which order, and
//! what the visitor's state becomes. The executable walker [`visit_paths`]
//! is proved to produce exactly that event sequence and exactly that
//! visitor state.

use vstd::prelude::*;

use crate::meta::FileType;
use crate::visitor::VisitCallback;

verus! {

/// One observable callback invocation, identified by the index of the node
/// it concerns. A `DirEnter` records the descend decision the visitor
/// returned for it.
#[derive(Clone, Copy, Debug, PartialEq, Eq, Structural)]
pub enum Event {
    /// `on_dir_enter` fired; the boolean is the returned descend decision.
    DirEnter(usize, bool),
    /// `on_dir_exit` fired.
    DirExit(usize),
    /// `on_file_visit` fired.
    FileVisit(usize),
    /// `on_nonfile_visit` fired.
    NonfileVisit(usize),
}

/// One filesystem entry in a snapshot.
pub struct FsNode {
    /// The path handed to callbacks for this entry.
    pub path: String,
    /// The entry's lstat-style metadata.
    pub meta: crate::meta::EntryMeta,
    /// Whether the metadata probe succeeds for this entry. A failed probe
    /// skips the entry silently.
    pub stat_ok: bool,
    /// Whether enumerating this entry (if a directory) succeeds. A failed
    /// enumeration behaves like an empty directory.
    pub readable: bool,
    /// Indices of this entry's children; meaningful only for directories.
    pub children: Vec<usize>,
}

/// A snapshot of the filesystem as a forest of entries.
pub struct FsTree {
    /// All entries, parents before children.
    pub nodes: Vec<FsNode>,
}

/// Every child index points past its parent and into the tree: the shape of
/// a snapshot of an acyclic hierarchy.
pub open spec fn tree_wf(nodes: Seq<FsNode>) -> bool {
    forall|i: int, j: int|
        0 <= i < nodes.len() && 0 <= j < nodes[i].children@.len() ==> i < #[trigger] nodes[i].children@[j]
            < nodes.len()
}

/// All indices in `ids` lie in `[lo, hi)`.
pub open spec fn ids_bounded(ids: Seq<usize>, lo: int, hi: int) -> bool {
    forall|k: int| 0 <= k < ids.len() ==> lo <= #[trigger] ids[k] < hi
}

impl FsTree {
    /// The snapshot is well formed.
    pub open spec fn wf(&self) -> bool {
        tree_wf(self.nodes@)
    }

    /// The number of entries in the snapshot.
    pub open spec fn len(&self) -> int {
        self.nodes@.len() as int
    }
}

/// The meaning of walking one pending entry: the events that fire and the
/// visitor state afterwards. A failed probe fires nothing; a regular file
/// fires `FileVisit`; a non-file, non-directory entry fires `NonfileVisit`;
/// a directory fires `DirEnter`, then — exactly when the visitor asked to
/// descend and enumeration succeeds — the events of its children in order,
/// and finally its one matching `DirExit`.
pub open spec fn walk_node<V: VisitCallback>(nodes: Seq<FsNode>, id: int, v: V) -> (Seq<Event>, V)
    decreases nodes.len() - id, 0int, 0int,
        when 0 <= id < nodes.len() && tree_wf(nodes)
{
    let n = nodes[id];
    if !n.stat_ok {
        (Seq::<Event>::empty(), v)
    } else if n.meta.is_file() {
        (seq![Event::FileVisit(id as usize)], v.after_file_visit(n.path@, n.meta))
    } else if n.meta.is_dir() {
        let b = v.descend(n.path@, n.meta);
        let v1 = v.after_dir_enter(n.path@, n.meta);
        if b && n.readable {
            let (evs, v2) = walk_list(nodes, id + 1, n.children@, v1);
            (
                seq![Event::DirEnter(id as usize, b)] + evs + seq![Event::DirExit(id as usize)],
                v2.after_dir_exit(n.path@, n.meta),
            )
        } else {
            (
                seq![Event::DirEnter(id as usize, b)] + seq![Event::DirExit(id as usize)],
                v1.after_dir_exit(n.path@, n.meta),
            )
        }
    } else {
        (seq![Event::NonfileVisit(id as usize)], v.after_nonfile_visit(n.path@, n.meta))
    }
}

/// The meaning of walking a list of pending entries in order, threading the
/// visitor state from each entry to the next.
pub open spec fn walk_list<V: VisitCallback>(
    nodes: Seq<FsNode>,
    lo: int,
    ids: Seq<usize>,
    v: V,
) -> (Seq<Event>, V)
    decreases nodes.len() - lo, 1int, ids.len(),
        when 0 <= lo <= nodes.len() && tree_wf(nodes) && ids_bounded(ids, lo, nodes.len() as int)
{
    if ids.len() == 0 {
        (Seq::<Event>::empty(), v)
    } else {
        let (e1, v1) = walk_node(nodes, ids[0] as int, v);
        let (e2, v2) = walk_list(nodes, lo, ids.drop_first(), v1);
        (e1 + e2, v2)
    }
}

/// Walk one entry of the snapshot, appending the events that fire to `log`.
fn walk_node_exec<V: VisitCallback>(fs: &FsTree, id: usize, vis: &mut V, log: &mut Vec<Event>)
    requires
        fs.wf(),
        id < fs.nodes@.len(),
    ensures
        final(log)@ == old(log)@ + walk_node(fs.nodes@, id as int, *old(vis)).0,
        *final(vis) == walk_node(fs.nodes@, id as int, *old(vis)).1,
    decreases fs.nodes@.len() - id, 1int, 0int,
{
    let ghost spec_result = walk_node(fs.nodes@, id as int, *old(vis));
    let n = &fs.nodes[id];
    if !n.stat_ok {
        assert(final(log)@ =~= old(log)@ + spec_result.0);
        return;
    }
    match n.meta.ftype {
        FileType::Regular => {
            vis.on_file_visit(n.path.clone(), &n.meta);
            log.push(Event::FileVisit(id));
            assert(log@ =~= old(log)@ + spec_result.0);
        },
        FileType::Directory => {
            let b = vis.on_dir_enter(n.path.clone(), &n.meta);
            log.push(Event::DirEnter(id, b));
            if b && n.readable {
                walk_children_exec(fs, id, 0, vis, log);
                proof {
                    assert(fs.nodes@[id as int].children@.skip(0) =~= fs.nodes@[
                        id as int
                    ].children@);
                }
            }
            vis.on_dir_exit(n.path.clone(), &n.meta);
            log.push(Event::DirExit(id));
            assert(log@ =~= old(log)@ + spec_result.0);
        },
        FileType::Other => {
            vis.on_nonfile_visit(n.path.clone(), &n.meta);
            log.push(Event::NonfileVisit(id));
            assert(log@ =~= old(log)@ + spec_result.0);
        },
    }
}

/// Walk the children of `parent` from position `from` on, appending the
/// events that fire to `log`.
fn walk_children_exec<V: VisitCallback>(
    fs: &FsTree,
    parent: usize,
    from: usize,
    vis: &mut V,
    log: &mut Vec<Event>,
)
    requires
        fs.wf(),
        parent < fs.nodes@.len(),
        from <= fs.nodes@[parent as int].children@.len(),
    ensures
        final(log)@ == old(log)@ + walk_list(
            fs.nodes@,
            parent + 1,
            fs.nodes@[parent as int].children@.skip(from as int),
            *old(vis),
        ).0,
        *final(vis) == walk_list(
            fs.nodes@,
            parent + 1,
            fs.nodes@[parent as int].children@.skip(from as int),
            *old(vis),
        ).1,
    decreases fs.nodes@.len() - parent, 0int, fs.nodes@[parent as int].children@.len() - from,
{
    let ghost ids = fs.nodes@[parent as int].children@.skip(from as int);
    proof {
        assert forall|k: int| 0 <= k < ids.len() implies parent + 1 <= #[trigger] ids[k]
            < fs.nodes@.len() by {
            assert(ids[k] == fs.nodes@[parent as int].children@[from + k]);
        }
    }
    let children_len = fs.nodes[parent].children.len();
    if from == children_len {
        assert(ids =~= Seq::<usize>::empty());
        assert(final(log)@ =~= old(log)@ + walk_list(fs.nodes@, parent + 1, ids, *old(vis)).0);
        return;
    }
    let c = fs.nodes[parent].children[from];
    proof {
        assert(c == fs.nodes@[parent as int].children@[from as int]);
        assert(parent < c < fs.nodes@.len());
        assert(ids[0] == c);
    }
    walk_node_exec(fs, c, vis, log);
    walk_children_exec(fs, parent, from + 1, vis, log);
    proof {
        assert(ids.drop_first() =~= fs.nodes@[parent as int].children@.skip(from as int + 1));
        let (e1, v1) = walk_node(fs.nodes@, c as int, *old(vis));
        let (e2, v2) = walk_list(fs.nodes@, parent + 1, ids.drop_first(), v1);
        assert(walk_list(fs.nodes@, parent + 1, ids, *old(vis)) == (e1 + e2, v2));
        assert(final(log)@ =~= old(log)@ + (e1 + e2));
    }
}

/// Walk the pending entries `ids[from..]` in order, appending the events
/// that fire to `log`.
fn walk_seq_exec<V: VisitCallback>(
    fs: &FsTree,
    ids: &Vec<usize>,
    from: usize,
    vis: &mut V,
    log: &mut Vec<Event>,
)
    requires
        fs.wf(),
        from <= ids@.len(),
        ids_bounded(ids@, 0, fs.nodes@.len() as int),
    ensures
        final(log)@ == old(log)@ + walk_list(fs.nodes@, 0, ids@.skip(from as int), *old(vis)).0,
        *final(vis) == walk_list(fs.nodes@, 0, ids@.skip(from as int), *old(vis)).1,
    decreases ids@.len() - from,
{
    let ghost pending = ids@.skip(from as int);
    if from == ids.len() {
        assert(pending =~= Seq::<usize>::empty());
        assert(final(log)@ =~= old(log)@ + walk_list(fs.nodes@, 0, pending, *old(vis)).0);
        return;
    }
    let r = ids[from];
    proof {
        assert(pending[0] == r);
        assert(r < fs.nodes@.len());
    }
    walk_node_exec(fs, r, vis, log);
    walk_seq_exec(fs, ids, from + 1, vis, log);
    proof {
        assert(pending.drop_first() =~= ids@.skip(from as int + 1));
        let (e1, v1) = walk_node(fs.nodes@, r as int, *old(vis));
        let (e2, v2) = walk_list(fs.nodes@, 0, pending.drop_first(), v1);
        assert(walk_list(fs.nodes@, 0, pending, *old(vis)) == (e1 + e2, v2));
        assert(final(log)@ =~= old(log)@ + (e1 + e2));
    }
}

/// Perform a walk over a snapshot, starting from the given seed entries.
///
/// Seeds are processed in order; duplicates are not de-duplicated, so a
/// repeated seed is walked once per occurrence. The returned log is exactly
/// the event sequence that [`walk_list`] gives for the seeds and the
/// visitor's initial state, and the visitor ends in exactly the state
/// [`walk_list`] gives — for every visitor, on every well-formed snapshot.
pub fn visit_paths<V: VisitCallback>(fs: &FsTree, roots: &Vec<usize>, vis: &mut V) -> (log: Vec<
    Event,
>)
    requires
        fs.wf(),
        ids_bounded(roots@, 0, fs.nodes@.len() as int),
    ensures
        log@ == walk_list(fs.nodes@, 0, roots@, *old(vis)).0,
        *final(vis) == walk_list(fs.nodes@, 0, roots@, *old(vis)).1,
{
    let mut log: Vec<Event> = Vec::new();
    walk_seq_exec(fs, roots, 0, vis, &mut log);
    proof {
        assert(roots@.skip(0) =~= roots@);
        assert(log@ =~= Seq::<Event>::empty() + walk_list(fs.nodes@, 0, roots@, *old(vis)).0);
    }
    log
}

} // verus!
