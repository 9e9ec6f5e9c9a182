//! The walk's stated laws, proved against the walk's meaning
//! ([`walk_node`] / [`walk_list`]).

use vstd::prelude::*;

use crate::countingvisitor::CountingVisitor;
use crate::meta::FileType;
use crate::visitor::VisitCallback;
use crate::walk::Event;
use crate::walk::FsNode;
use crate::walk::ids_bounded;
use crate::walk::tree_wf;
use crate::walk::walk_list;
use crate::walk::walk_node;

verus! {

/// How many `DirEnter` events for node `d` a log holds.
pub open spec fn count_enters(log: Seq<Event>, d: usize) -> int
    decreases log.len(),
{
    if log.len() == 0 {
        0
    } else {
        (match log[0] {
            Event::DirEnter(d2, _) => if d2 == d {
                1int
            } else {
                0int
            },
            _ => 0int,
        }) + count_enters(log.drop_first(), d)
    }
}

/// How many `DirExit` events for node `d` a log holds.
pub open spec fn count_exits(log: Seq<Event>, d: usize) -> int
    decreases log.len(),
{
    if log.len() == 0 {
        0
    } else {
        (match log[0] {
            Event::DirExit(d2) => if d2 == d {
                1int
            } else {
                0int
            },
            _ => 0int,
        }) + count_exits(log.drop_first(), d)
    }
}

proof fn lemma_count_enters_concat(a: Seq<Event>, b: Seq<Event>, d: usize)
    ensures
        count_enters(a + b, d) == count_enters(a, d) + count_enters(b, d),
    decreases a.len(),
{
    if a.len() == 0 {
        assert(a + b =~= b);
    } else {
        assert((a + b).drop_first() =~= a.drop_first() + b);
        assert((a + b)[0] == a[0]);
        lemma_count_enters_concat(a.drop_first(), b, d);
    }
}

proof fn lemma_count_exits_concat(a: Seq<Event>, b: Seq<Event>, d: usize)
    ensures
        count_exits(a + b, d) == count_exits(a, d) + count_exits(b, d),
    decreases a.len(),
{
    if a.len() == 0 {
        assert(a + b =~= b);
    } else {
        assert((a + b).drop_first() =~= a.drop_first() + b);
        assert((a + b)[0] == a[0]);
        lemma_count_exits_concat(a.drop_first(), b, d);
    }
}

proof fn lemma_counts_empty(d: usize)
    ensures
        count_enters(Seq::<Event>::empty(), d) == 0,
        count_exits(Seq::<Event>::empty(), d) == 0,
{
}

proof fn lemma_counts_singleton(e: Event, d: usize)
    ensures
        count_enters(seq![e], d) == (match e {
            Event::DirEnter(d2, _) => if d2 == d {
                1int
            } else {
                0int
            },
            _ => 0int,
        }),
        count_exits(seq![e], d) == (match e {
            Event::DirExit(d2) => if d2 == d {
                1int
            } else {
                0int
            },
            _ => 0int,
        }),
{
    lemma_counts_empty(d);
    assert(seq![e].drop_first() =~= Seq::<Event>::empty());
}

/// For every directory that receives `on_dir_enter` there is exactly one
/// matching `on_dir_exit`: in the log of any walk of one entry, the enter
/// and exit counts agree for every node — and by the definition of
/// [`walk_node`], a directory's own children's events all lie strictly
/// between its enter and its exit.
pub proof fn lemma_enter_exit_balanced_node<V: VisitCallback>(
    nodes: Seq<FsNode>,
    id: int,
    v: V,
    d: usize,
)
    requires
        tree_wf(nodes),
        0 <= id < nodes.len(),
    ensures
        count_enters(walk_node(nodes, id, v).0, d) == count_exits(walk_node(nodes, id, v).0, d),
    decreases nodes.len() - id, 0int, 0int,
{
    let n = nodes[id];
    let log = walk_node(nodes, id, v).0;
    lemma_counts_empty(d);
    if !n.stat_ok {
        assert(log == Seq::<Event>::empty());
    } else if n.meta.ftype == FileType::Regular {
        lemma_counts_singleton(Event::FileVisit(id as usize), d);
    } else if n.meta.ftype != FileType::Directory {
        lemma_counts_singleton(Event::NonfileVisit(id as usize), d);
    } else {
        let b = v.descend(n.path@, n.meta);
        let v1 = v.after_dir_enter(n.path@, n.meta);
        let enter = seq![Event::DirEnter(id as usize, b)];
        let exit = seq![Event::DirExit(id as usize)];
        lemma_counts_singleton(Event::DirEnter(id as usize, b), d);
        lemma_counts_singleton(Event::DirExit(id as usize), d);
        if b && n.readable {
            let evs = walk_list(nodes, id + 1, n.children@, v1).0;
            assert(ids_bounded(n.children@, id + 1, nodes.len() as int));
            lemma_enter_exit_balanced_list(nodes, id + 1, n.children@, v1, d);
            lemma_count_enters_concat(enter, evs, d);
            lemma_count_enters_concat(enter + evs, exit, d);
            lemma_count_exits_concat(enter, evs, d);
            lemma_count_exits_concat(enter + evs, exit, d);
        } else {
            lemma_count_enters_concat(enter, exit, d);
            lemma_count_exits_concat(enter, exit, d);
        }
    }
}

/// The enter/exit balance, for a walk of a list of pending entries.
pub proof fn lemma_enter_exit_balanced_list<V: VisitCallback>(
    nodes: Seq<FsNode>,
    lo: int,
    ids: Seq<usize>,
    v: V,
    d: usize,
)
    requires
        tree_wf(nodes),
        0 <= lo <= nodes.len(),
        ids_bounded(ids, lo, nodes.len() as int),
    ensures
        count_enters(walk_list(nodes, lo, ids, v).0, d) == count_exits(
            walk_list(nodes, lo, ids, v).0,
            d,
        ),
    decreases nodes.len() - lo, 1int, ids.len(),
{
    if ids.len() == 0 {
    } else {
        let (e1, v1) = walk_node(nodes, ids[0] as int, v);
        let e2 = walk_list(nodes, lo, ids.drop_first(), v1).0;
        lemma_enter_exit_balanced_node(nodes, ids[0] as int, v, d);
        lemma_enter_exit_balanced_list(nodes, lo, ids.drop_first(), v1, d);
        lemma_count_enters_concat(e1, e2, d);
        lemma_count_exits_concat(e1, e2, d);
    }
}

/// The node an event concerns.
pub open spec fn event_node(e: Event) -> usize {
    match e {
        Event::DirEnter(i, _) => i,
        Event::DirExit(i) => i,
        Event::FileVisit(i) => i,
        Event::NonfileVisit(i) => i,
    }
}

/// Walking the concatenation of two seed lists is walking the first, then
/// walking the second from the visitor state the first left behind. In
/// particular, a seed that appears twice is walked twice, each occurrence
/// contributing its own full event segment.
pub proof fn lemma_seed_concat<V: VisitCallback>(
    nodes: Seq<FsNode>,
    lo: int,
    ids1: Seq<usize>,
    ids2: Seq<usize>,
    v: V,
)
    requires
        tree_wf(nodes),
        0 <= lo <= nodes.len(),
        ids_bounded(ids1, lo, nodes.len() as int),
        ids_bounded(ids2, lo, nodes.len() as int),
    ensures
        walk_list(nodes, lo, ids1 + ids2, v).0 == walk_list(nodes, lo, ids1, v).0 + walk_list(
            nodes,
            lo,
            ids2,
            walk_list(nodes, lo, ids1, v).1,
        ).0,
        walk_list(nodes, lo, ids1 + ids2, v).1 == walk_list(
            nodes,
            lo,
            ids2,
            walk_list(nodes, lo, ids1, v).1,
        ).1,
    decreases ids1.len(),
{
    assert forall|k: int| 0 <= k < (ids1 + ids2).len() implies lo <= #[trigger] (ids1 + ids2)[k]
        < nodes.len() by {
        if k < ids1.len() {
            assert((ids1 + ids2)[k] == ids1[k]);
        } else {
            assert((ids1 + ids2)[k] == ids2[k - ids1.len()]);
        }
    }
    if ids1.len() == 0 {
        assert(ids1 + ids2 =~= ids2);
        assert(Seq::<Event>::empty() + walk_list(nodes, lo, ids2, v).0 =~= walk_list(
            nodes,
            lo,
            ids2,
            v,
        ).0);
    } else {
        assert((ids1 + ids2)[0] == ids1[0]);
        assert((ids1 + ids2).drop_first() =~= ids1.drop_first() + ids2);
        let (e1, v1) = walk_node(nodes, ids1[0] as int, v);
        lemma_seed_concat(nodes, lo, ids1.drop_first(), ids2, v1);
        let em = walk_list(nodes, lo, ids1.drop_first(), v1).0;
        let vm = walk_list(nodes, lo, ids1.drop_first(), v1).1;
        let e2 = walk_list(nodes, lo, ids2, vm).0;
        assert(e1 + (em + e2) =~= (e1 + em) + e2);
    }
}

/// When the visitor declines to descend into every directory — the
/// cancellation regime — every event of the walk concerns a seed itself:
/// each seed directory receives its one `on_dir_enter` and `on_dir_exit`,
/// seed files and non-files their one visit, and no descendant of any seed
/// is ever touched.
pub proof fn lemma_no_descend_stays_at_seeds<V: VisitCallback>(
    nodes: Seq<FsNode>,
    lo: int,
    ids: Seq<usize>,
    v: V,
)
    requires
        tree_wf(nodes),
        0 <= lo <= nodes.len(),
        ids_bounded(ids, lo, nodes.len() as int),
        forall|u: V, p: Seq<char>, m: crate::meta::EntryMeta| !(#[trigger] u.descend(p, m)),
    ensures
        forall|k: int|
            0 <= k < walk_list(nodes, lo, ids, v).0.len() ==> ids.contains(
                event_node(#[trigger] walk_list(nodes, lo, ids, v).0[k]),
            ),
    decreases ids.len(),
{
    if ids.len() == 0 {
    } else {
        let id = ids[0] as int;
        let n = nodes[id];
        let (e1, v1) = walk_node(nodes, id, v);
        assert(forall|k: int| 0 <= k < e1.len() ==> event_node(#[trigger] e1[k]) == ids[0]);
        lemma_no_descend_stays_at_seeds(nodes, lo, ids.drop_first(), v1);
        let e2 = walk_list(nodes, lo, ids.drop_first(), v1).0;
        assert(ids.contains(ids[0]));
        assert forall|x: usize| ids.drop_first().contains(x) implies ids.contains(x) by {
            let j = choose|j: int| 0 <= j < ids.drop_first().len() && ids.drop_first()[j] == x;
            assert(ids[j + 1] == x);
        }
        assert forall|k: int| 0 <= k < (e1 + e2).len() implies ids.contains(
            event_node(#[trigger] (e1 + e2)[k]),
        ) by {
            if k < e1.len() {
                assert((e1 + e2)[k] == e1[k]);
            } else {
                assert((e1 + e2)[k] == e2[k - e1.len()]);
                assert(ids.drop_first().contains(event_node(e2[k - e1.len()])));
            }
        }
    }
}

/// The counting visitor's cancellation regime: with no seed devices it
/// declines every descent, so every event of the walk concerns a seed
/// itself and no descendant of any seed is ever touched.
pub proof fn lemma_counting_no_devices_stays_at_seeds(
    nodes: Seq<FsNode>,
    lo: int,
    ids: Seq<usize>,
    v: CountingVisitor,
)
    requires
        tree_wf(nodes),
        0 <= lo <= nodes.len(),
        ids_bounded(ids, lo, nodes.len() as int),
        v.root_devnos@.len() == 0,
    ensures
        forall|k: int|
            0 <= k < walk_list(nodes, lo, ids, v).0.len() ==> ids.contains(
                event_node(#[trigger] walk_list(nodes, lo, ids, v).0[k]),
            ),
    decreases ids.len(),
{
    if ids.len() == 0 {
    } else {
        let id = ids[0] as int;
        let n = nodes[id];
        let (e1, v1) = walk_node(nodes, id, v);
        assert(!v.descend(n.path@, n.meta));
        assert(forall|k: int| 0 <= k < e1.len() ==> event_node(#[trigger] e1[k]) == ids[0]);
        lemma_counting_events_ignore_tally_node(nodes, id, v, v);
        assert(v1.root_devnos@.len() == 0);
        lemma_counting_no_devices_stays_at_seeds(nodes, lo, ids.drop_first(), v1);
        let e2 = walk_list(nodes, lo, ids.drop_first(), v1).0;
        assert(ids.contains(ids[0]));
        assert forall|x: usize| ids.drop_first().contains(x) implies ids.contains(x) by {
            let j = choose|j: int| 0 <= j < ids.drop_first().len() && ids.drop_first()[j] == x;
            assert(ids[j + 1] == x);
        }
        assert forall|k: int| 0 <= k < (e1 + e2).len() implies ids.contains(
            event_node(#[trigger] (e1 + e2)[k]),
        ) by {
            if k < e1.len() {
                assert((e1 + e2)[k] == e1[k]);
            } else {
                assert((e1 + e2)[k] == e2[k - e1.len()]);
                assert(ids.drop_first().contains(event_node(e2[k - e1.len()])));
            }
        }
    }
}

/// A walked directory's log opens with its own `on_dir_enter` and closes
/// with its own `on_dir_exit`: every child visit of that directory lies
/// strictly between the two.
pub proof fn lemma_dir_log_shape<V: VisitCallback>(nodes: Seq<FsNode>, id: int, v: V)
    requires
        tree_wf(nodes),
        0 <= id < nodes.len(),
        nodes[id].stat_ok,
        nodes[id].meta.ftype == FileType::Directory,
    ensures
        walk_node(nodes, id, v).0.len() >= 2,
        walk_node(nodes, id, v).0.first() == Event::DirEnter(
            id as usize,
            v.descend(nodes[id].path@, nodes[id].meta),
        ),
        walk_node(nodes, id, v).0.last() == Event::DirExit(id as usize),
{
    let n = nodes[id];
    let b = v.descend(n.path@, n.meta);
    let log = walk_node(nodes, id, v).0;
    let enter = seq![Event::DirEnter(id as usize, b)];
    let exit = seq![Event::DirExit(id as usize)];
    if b && n.readable {
        let v1 = v.after_dir_enter(n.path@, n.meta);
        let evs = walk_list(nodes, id + 1, n.children@, v1).0;
        assert(log == enter + evs + exit);
        assert(log[0] == enter[0]);
        assert(log[log.len() - 1] == exit[0]);
    } else {
        assert(log == enter + exit);
        assert(log[0] == enter[0]);
        assert(log[log.len() - 1] == exit[0]);
    }
}

/// How many `FileVisit` events a log holds.
pub open spec fn count_file_visits(log: Seq<Event>) -> int
    decreases log.len(),
{
    if log.len() == 0 {
        0
    } else {
        (match log[0] {
            Event::FileVisit(_) => 1int,
            _ => 0int,
        }) + count_file_visits(log.drop_first())
    }
}

proof fn lemma_count_file_visits_nonneg(log: Seq<Event>)
    ensures
        count_file_visits(log) >= 0,
    decreases log.len(),
{
    if log.len() > 0 {
        lemma_count_file_visits_nonneg(log.drop_first());
    }
}

proof fn lemma_count_file_visits_concat(a: Seq<Event>, b: Seq<Event>)
    ensures
        count_file_visits(a + b) == count_file_visits(a) + count_file_visits(b),
    decreases a.len(),
{
    if a.len() == 0 {
        assert(a + b =~= b);
    } else {
        assert((a + b).drop_first() =~= a.drop_first() + b);
        assert((a + b)[0] == a[0]);
        lemma_count_file_visits_concat(a.drop_first(), b);
    }
}

proof fn lemma_count_file_visits_singleton(e: Event)
    ensures
        count_file_visits(seq![e]) == (match e {
            Event::FileVisit(_) => 1int,
            _ => 0int,
        }),
{
    assert(count_file_visits(Seq::<Event>::empty()) == 0);
    assert(seq![e].drop_first() =~= Seq::<Event>::empty());
}

/// A saturating sum, the arithmetic of the counting visitor's tally.
pub open spec fn saturated_count(base: u64, extra: int) -> int {
    if base + extra <= u64::MAX {
        base + extra
    } else {
        u64::MAX as int
    }
}

/// The counting visitor counts exactly the `on_file_visit` callbacks: after
/// walking one entry, its tally has grown by the number of `FileVisit`
/// events in the log (saturating at the counter's width), and its set of
/// seed devices is untouched.
pub proof fn lemma_counting_tally_node(nodes: Seq<FsNode>, id: int, v: CountingVisitor)
    requires
        tree_wf(nodes),
        0 <= id < nodes.len(),
    ensures
        walk_node(nodes, id, v).1.root_devnos@ == v.root_devnos@,
        walk_node(nodes, id, v).1.file_count == saturated_count(
            v.file_count,
            count_file_visits(walk_node(nodes, id, v).0),
        ),
    decreases nodes.len() - id, 0int, 0int,
{
    let n = nodes[id];
    let (log, v2) = walk_node(nodes, id, v);
    if !n.stat_ok {
        assert(count_file_visits(log) == 0);
    } else if n.meta.ftype == FileType::Regular {
        lemma_count_file_visits_singleton(Event::FileVisit(id as usize));
    } else if n.meta.ftype != FileType::Directory {
        lemma_count_file_visits_singleton(Event::NonfileVisit(id as usize));
    } else {
        let b = v.descend(n.path@, n.meta);
        let v1 = v.after_dir_enter(n.path@, n.meta);
        let enter = seq![Event::DirEnter(id as usize, b)];
        let exit = seq![Event::DirExit(id as usize)];
        lemma_count_file_visits_singleton(Event::DirEnter(id as usize, b));
        lemma_count_file_visits_singleton(Event::DirExit(id as usize));
        if b && n.readable {
            let evs = walk_list(nodes, id + 1, n.children@, v1).0;
            lemma_counting_tally_list(nodes, id + 1, n.children@, v1);
            lemma_count_file_visits_concat(enter, evs);
            lemma_count_file_visits_concat(enter + evs, exit);
        } else {
            lemma_count_file_visits_concat(enter, exit);
        }
    }
}

/// The counting visitor's tally law, for a walk of a list of pending
/// entries.
pub proof fn lemma_counting_tally_list(
    nodes: Seq<FsNode>,
    lo: int,
    ids: Seq<usize>,
    v: CountingVisitor,
)
    requires
        tree_wf(nodes),
        0 <= lo <= nodes.len(),
        ids_bounded(ids, lo, nodes.len() as int),
    ensures
        walk_list(nodes, lo, ids, v).1.root_devnos@ == v.root_devnos@,
        walk_list(nodes, lo, ids, v).1.file_count == saturated_count(
            v.file_count,
            count_file_visits(walk_list(nodes, lo, ids, v).0),
        ),
    decreases nodes.len() - lo, 1int, ids.len(),
{
    if ids.len() == 0 {
    } else {
        let (e1, v1) = walk_node(nodes, ids[0] as int, v);
        let e2 = walk_list(nodes, lo, ids.drop_first(), v1).0;
        lemma_counting_tally_node(nodes, ids[0] as int, v);
        lemma_counting_tally_list(nodes, lo, ids.drop_first(), v1);
        lemma_count_file_visits_concat(e1, e2);
        lemma_count_file_visits_nonneg(e1);
        lemma_count_file_visits_nonneg(e2);
    }
}

/// Which events fire under the counting visitor depends only on its seed
/// devices, never on its tally: two counting visitors with the same seed
/// devices drive identical walks of one entry.
pub proof fn lemma_counting_events_ignore_tally_node(
    nodes: Seq<FsNode>,
    id: int,
    v1: CountingVisitor,
    v2: CountingVisitor,
)
    requires
        tree_wf(nodes),
        0 <= id < nodes.len(),
        v1.root_devnos@ == v2.root_devnos@,
    ensures
        walk_node(nodes, id, v1).0 == walk_node(nodes, id, v2).0,
        walk_node(nodes, id, v1).1.root_devnos@ == v1.root_devnos@,
        walk_node(nodes, id, v2).1.root_devnos@ == v2.root_devnos@,
    decreases nodes.len() - id, 0int, 0int,
{
    let n = nodes[id];
    if n.stat_ok && n.meta.ftype == FileType::Directory {
        let b = v1.descend(n.path@, n.meta);
        assert(b == v2.descend(n.path@, n.meta));
        if b && n.readable {
            lemma_counting_events_ignore_tally_list(
                nodes,
                id + 1,
                n.children@,
                v1.after_dir_enter(n.path@, n.meta),
                v2.after_dir_enter(n.path@, n.meta),
            );
        }
    }
}

/// The tally-independence of the counting visitor's walk, for a list of
/// pending entries.
pub proof fn lemma_counting_events_ignore_tally_list(
    nodes: Seq<FsNode>,
    lo: int,
    ids: Seq<usize>,
    v1: CountingVisitor,
    v2: CountingVisitor,
)
    requires
        tree_wf(nodes),
        0 <= lo <= nodes.len(),
        ids_bounded(ids, lo, nodes.len() as int),
        v1.root_devnos@ == v2.root_devnos@,
    ensures
        walk_list(nodes, lo, ids, v1).0 == walk_list(nodes, lo, ids, v2).0,
        walk_list(nodes, lo, ids, v1).1.root_devnos@ == v1.root_devnos@,
        walk_list(nodes, lo, ids, v2).1.root_devnos@ == v2.root_devnos@,
    decreases nodes.len() - lo, 1int, ids.len(),
{
    if ids.len() == 0 {
    } else {
        lemma_counting_events_ignore_tally_node(nodes, ids[0] as int, v1, v2);
        lemma_counting_events_ignore_tally_list(
            nodes,
            lo,
            ids.drop_first(),
            walk_node(nodes, ids[0] as int, v1).1,
            walk_node(nodes, ids[0] as int, v2).1,
        );
    }
}

/// Under the counting visitor, a seed given twice contributes the same
/// event segment twice: the walk of `[id, id]` is the walk of `id`,
/// repeated.
pub proof fn lemma_duplicate_seed_doubles_events(nodes: Seq<FsNode>, id: usize, v: CountingVisitor)
    requires
        tree_wf(nodes),
        id < nodes.len(),
    ensures
        walk_list(nodes, 0, seq![id, id], v).0 == walk_node(nodes, id as int, v).0 + walk_node(
            nodes,
            id as int,
            v,
        ).0,
{
    let single = seq![id];
    lemma_seed_concat(nodes, 0, single, single, v);
    assert(single + single =~= seq![id, id]);
    let (e1, v1) = walk_node(nodes, id as int, v);
    assert(single.drop_first() =~= Seq::<usize>::empty());
    assert(walk_list(nodes, 0, Seq::<usize>::empty(), v1).0 == Seq::<Event>::empty());
    assert(e1 + Seq::<Event>::empty() =~= e1);
    assert(walk_list(nodes, 0, single, v).0 == e1);
    assert(walk_list(nodes, 0, single, v).1 == v1);
    lemma_counting_events_ignore_tally_node(nodes, id as int, v, v);
    let (f1, w1) = walk_node(nodes, id as int, v1);
    assert(walk_list(nodes, 0, Seq::<usize>::empty(), w1).0 == Seq::<Event>::empty());
    assert(f1 + Seq::<Event>::empty() =~= f1);
    assert(walk_list(nodes, 0, single, v1).0 == f1);
    lemma_counting_events_ignore_tally_node(nodes, id as int, v1, v);
}

/// Every file-visit and non-file-visit event of the log concerns an entry
/// on device `d0`.
pub open spec fn visits_on_device(nodes: Seq<FsNode>, log: Seq<Event>, d0: u64) -> bool {
    forall|k: int|
        0 <= k < log.len() ==> match #[trigger] log[k] {
            Event::FileVisit(i) => i < nodes.len() && nodes[i as int].meta.dev == d0,
            Event::NonfileVisit(i) => i < nodes.len() && nodes[i as int].meta.dev == d0,
            _ => true,
        }
}

/// Every non-directory child sits on the same device as its parent
/// directory: filesystems change device only at a mount point, and a mount
/// point is a directory.
pub open spec fn nondir_children_share_device(nodes: Seq<FsNode>) -> bool {
    forall|i: int, j: int|
        0 <= i < nodes.len() && 0 <= j < nodes[i].children@.len() && (#[trigger] nodes[i].children@[j])
            < nodes.len() && nodes[nodes[i].children@[j] as int].meta.ftype != FileType::Directory
            ==> nodes[nodes[i].children@[j] as int].meta.dev == nodes[i].meta.dev
}

/// The device policy of the counting visitor: when its seed-device set is
/// `{d0}`, and every seed entry that is not a directory itself sits on
/// `d0`, then no file or non-file visit of the walk ever concerns an entry
/// on another device. (The directory at a mount point still receives its
/// `on_dir_enter` — that is how the visitor declines it — but nothing below
/// it is touched.)
pub proof fn lemma_device_policy_node(nodes: Seq<FsNode>, id: int, v: CountingVisitor, d0: u64)
    requires
        tree_wf(nodes),
        nondir_children_share_device(nodes),
        nodes.len() <= usize::MAX,
        0 <= id < nodes.len(),
        forall|x: u64| v.root_devnos@.contains(x) ==> x == d0,
        nodes[id].meta.ftype != FileType::Directory ==> nodes[id].meta.dev == d0,
    ensures
        visits_on_device(nodes, walk_node(nodes, id, v).0, d0),
        walk_node(nodes, id, v).1.root_devnos@ == v.root_devnos@,
    decreases nodes.len() - id, 0int, 0int,
{
    let n = nodes[id];
    let (log, v2) = walk_node(nodes, id, v);
    if !n.stat_ok {
    } else if n.meta.ftype != FileType::Directory {
        assert(forall|k: int| 0 <= k < log.len() ==> #[trigger] log[k] == log[0]);
    } else {
        let b = v.descend(n.path@, n.meta);
        let v1 = v.after_dir_enter(n.path@, n.meta);
        let enter = seq![Event::DirEnter(id as usize, b)];
        let exit = seq![Event::DirExit(id as usize)];
        if b && n.readable {
            assert(v.root_devnos@.contains(n.meta.dev));
            assert(n.meta.dev == d0);
            assert forall|k: int|
                0 <= k < n.children@.len() && nodes[#[trigger] n.children@[k] as int].meta.ftype
                    != FileType::Directory implies nodes[n.children@[k] as int].meta.dev == d0 by {
                assert(nodes[id].children@[k] < nodes.len());
            }
            let evs = walk_list(nodes, id + 1, n.children@, v1).0;
            lemma_device_policy_list(nodes, id + 1, n.children@, v1, d0);
            assert forall|k: int| 0 <= k < log.len() implies match #[trigger] log[k] {
                Event::FileVisit(i) => i < nodes.len() && nodes[i as int].meta.dev == d0,
                Event::NonfileVisit(i) => i < nodes.len() && nodes[i as int].meta.dev == d0,
                _ => true,
            } by {
                assert(log == enter + evs + exit);
                if k == 0 {
                    assert(log[k] == Event::DirEnter(id as usize, b));
                } else if k < 1 + evs.len() {
                    assert(log[k] == evs[k - 1]);
                } else {
                    assert(log[k] == Event::DirExit(id as usize));
                }
            }
        } else {
            assert forall|k: int| 0 <= k < log.len() implies match #[trigger] log[k] {
                Event::FileVisit(i) => i < nodes.len() && nodes[i as int].meta.dev == d0,
                Event::NonfileVisit(i) => i < nodes.len() && nodes[i as int].meta.dev == d0,
                _ => true,
            } by {
                assert(log == enter + exit);
                if k == 0 {
                    assert(log[k] == Event::DirEnter(id as usize, b));
                } else {
                    assert(log[k] == Event::DirExit(id as usize));
                }
            }
        }
    }
}

/// The device policy, for a walk of a list of pending entries.
pub proof fn lemma_device_policy_list(
    nodes: Seq<FsNode>,
    lo: int,
    ids: Seq<usize>,
    v: CountingVisitor,
    d0: u64,
)
    requires
        tree_wf(nodes),
        nondir_children_share_device(nodes),
        nodes.len() <= usize::MAX,
        0 <= lo <= nodes.len(),
        ids_bounded(ids, lo, nodes.len() as int),
        forall|x: u64| v.root_devnos@.contains(x) ==> x == d0,
        forall|k: int|
            0 <= k < ids.len() && nodes[#[trigger] ids[k] as int].meta.ftype != FileType::Directory
                ==> nodes[ids[k] as int].meta.dev == d0,
    ensures
        visits_on_device(nodes, walk_list(nodes, lo, ids, v).0, d0),
        walk_list(nodes, lo, ids, v).1.root_devnos@ == v.root_devnos@,
    decreases nodes.len() - lo, 1int, ids.len(),
{
    if ids.len() == 0 {
    } else {
        let (e1, v1) = walk_node(nodes, ids[0] as int, v);
        let e2 = walk_list(nodes, lo, ids.drop_first(), v1).0;
        lemma_device_policy_node(nodes, ids[0] as int, v, d0);
        assert forall|k: int|
            0 <= k < ids.drop_first().len() && nodes[#[trigger] ids.drop_first()[k] as int].meta.ftype
                != FileType::Directory implies nodes[ids.drop_first()[k] as int].meta.dev == d0 by {
            assert(ids.drop_first()[k] == ids[k + 1]);
        }
        lemma_device_policy_list(nodes, lo, ids.drop_first(), v1, d0);
        assert forall|k: int| 0 <= k < (e1 + e2).len() implies match #[trigger] (e1 + e2)[k] {
            Event::FileVisit(i) => i < nodes.len() && nodes[i as int].meta.dev == d0,
            Event::NonfileVisit(i) => i < nodes.len() && nodes[i as int].meta.dev == d0,
            _ => true,
        } by {
            if k < e1.len() {
                assert((e1 + e2)[k] == e1[k]);
            } else {
                assert((e1 + e2)[k] == e2[k - e1.len()]);
            }
        }
    }
}

/// Running a walk twice from the same seeds, the same snapshot and equal
/// initial visitor states yields identical event sequences and identical
/// final visitor states: the walk's outcome is a function of its inputs.
pub proof fn lemma_rerun_identical<V: VisitCallback>(
    nodes: Seq<FsNode>,
    roots: Seq<usize>,
    v1: V,
    v2: V,
)
    requires
        v1 == v2,
    ensures
        walk_list(nodes, 0, roots, v1) == walk_list(nodes, 0, roots, v2),
{
}

/// With no seeds, a walk fires no callback and leaves the visitor alone.
pub proof fn lemma_no_seeds_no_events<V: VisitCallback>(nodes: Seq<FsNode>, v: V)
    requires
        tree_wf(nodes),
    ensures
        walk_list(nodes, 0, Seq::<usize>::empty(), v) == (Seq::<Event>::empty(), v),
{
}

/// A seed that is a regular file fires `on_file_visit` once and nothing
/// else — in particular, no directory callback.
pub proof fn lemma_file_seed<V: VisitCallback>(nodes: Seq<FsNode>, id: int, v: V)
    requires
        tree_wf(nodes),
        0 <= id < nodes.len(),
        nodes[id].stat_ok,
        nodes[id].meta.ftype == FileType::Regular,
    ensures
        walk_node(nodes, id, v).0 == seq![Event::FileVisit(id as usize)],
        walk_node(nodes, id, v).1 == v.after_file_visit(nodes[id].path@, nodes[id].meta),
{
}

/// A seed that is neither a file nor a directory — a symbolic link, for
/// instance, since metadata is captured without following links — fires
/// `on_nonfile_visit` once and is not descended into.
pub proof fn lemma_nonfile_seed<V: VisitCallback>(nodes: Seq<FsNode>, id: int, v: V)
    requires
        tree_wf(nodes),
        0 <= id < nodes.len(),
        nodes[id].stat_ok,
        nodes[id].meta.ftype == FileType::Other,
    ensures
        walk_node(nodes, id, v).0 == seq![Event::NonfileVisit(id as usize)],
        walk_node(nodes, id, v).1 == v.after_nonfile_visit(nodes[id].path@, nodes[id].meta),
{
}

/// A directory whose children are never enumerated — because it is empty,
/// because enumeration fails (permission denied), or because the visitor
/// declined to descend — fires exactly `on_dir_enter` then `on_dir_exit`,
/// and no child callback.
pub proof fn lemma_dir_without_children<V: VisitCallback>(nodes: Seq<FsNode>, id: int, v: V)
    requires
        tree_wf(nodes),
        0 <= id < nodes.len(),
        nodes[id].stat_ok,
        nodes[id].meta.ftype == FileType::Directory,
        nodes[id].children@.len() == 0 || !nodes[id].readable || !v.descend(
            nodes[id].path@,
            nodes[id].meta,
        ),
    ensures
        walk_node(nodes, id, v).0 == seq![
            Event::DirEnter(id as usize, v.descend(nodes[id].path@, nodes[id].meta)),
            Event::DirExit(id as usize),
        ],
{
    let n = nodes[id];
    let b = v.descend(n.path@, n.meta);
    let enter = seq![Event::DirEnter(id as usize, b)];
    let exit = seq![Event::DirExit(id as usize)];
    if b && n.readable {
        let v1 = v.after_dir_enter(n.path@, n.meta);
        assert(walk_list(nodes, id + 1, n.children@, v1).0 =~= Seq::<Event>::empty());
        assert(enter + Seq::<Event>::empty() + exit =~= seq![
            Event::DirEnter(id as usize, b),
            Event::DirExit(id as usize),
        ]);
    } else {
        assert(enter + exit =~= seq![
            Event::DirEnter(id as usize, b),
            Event::DirExit(id as usize),
        ]);
    }
}

} // verus!
