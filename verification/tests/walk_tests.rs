use cfilevisit::countingvisitor::CountingVisitor;
use cfilevisit::meta::EntryMeta;
use cfilevisit::meta::FileType;
use cfilevisit::visit_paths;
use cfilevisit::walk::Event;
use cfilevisit::walk::FsNode;
use cfilevisit::walk::FsTree;

fn node(path: &str, ftype: FileType, dev: u64, children: Vec<usize>) -> FsNode {
    FsNode {
        path: path.to_string(),
        meta: EntryMeta { ftype, dev, ino: 0 },
        stat_ok: true,
        readable: true,
        children,
    }
}

/// The tree /r = { a (file), b (file), c/ = { d (file) } }, all on device 1.
fn small_tree() -> FsTree {
    FsTree {
        nodes: vec![
            node("/r", FileType::Directory, 1, vec![1, 2, 3]),
            node("/r/a", FileType::Regular, 1, vec![]),
            node("/r/b", FileType::Regular, 1, vec![]),
            node("/r/c", FileType::Directory, 1, vec![4]),
            node("/r/c/d", FileType::Regular, 1, vec![]),
        ],
    }
}

#[test]
fn empty_seed_list_fires_no_callbacks() {
    let fs = small_tree();
    let mut vis = CountingVisitor::new(vec![1]);
    let log = visit_paths(&fs, &vec![], &mut vis);
    assert!(log.is_empty());
    assert_eq!(0, vis.get_filecount());
}

#[test]
fn single_file_seed_fires_one_file_visit() {
    let fs = FsTree { nodes: vec![node("/f", FileType::Regular, 1, vec![])] };
    let mut vis = CountingVisitor::new(vec![1]);
    let log = visit_paths(&fs, &vec![0], &mut vis);
    assert_eq!(log, vec![Event::FileVisit(0)]);
    assert_eq!(1, vis.get_filecount());
}

#[test]
fn single_empty_directory_fires_enter_then_exit() {
    let fs = FsTree { nodes: vec![node("/d", FileType::Directory, 1, vec![])] };
    let mut vis = CountingVisitor::new(vec![1]);
    let log = visit_paths(&fs, &vec![0], &mut vis);
    assert_eq!(log, vec![Event::DirEnter(0, true), Event::DirExit(0)]);
    assert_eq!(0, vis.get_filecount());
}

#[test]
fn symlink_seed_fires_nonfile_visit_and_is_not_descended() {
    // lstat semantics classify a symbolic link to a directory as Other.
    let fs = FsTree { nodes: vec![node("/link", FileType::Other, 1, vec![])] };
    let mut vis = CountingVisitor::new(vec![1]);
    let log = visit_paths(&fs, &vec![0], &mut vis);
    assert_eq!(log, vec![Event::NonfileVisit(0)]);
    assert_eq!(0, vis.get_filecount());
}

#[test]
fn unreadable_directory_fires_enter_then_exit_without_children() {
    let mut n = node("/locked", FileType::Directory, 1, vec![]);
    n.readable = false;
    let fs = FsTree { nodes: vec![n] };
    let mut vis = CountingVisitor::new(vec![1]);
    let log = visit_paths(&fs, &vec![0], &mut vis);
    assert_eq!(log, vec![Event::DirEnter(0, true), Event::DirExit(0)]);
}

#[test]
fn failed_probe_skips_the_entry_silently() {
    let mut n = node("/ghost", FileType::Regular, 1, vec![]);
    n.stat_ok = false;
    let fs = FsTree { nodes: vec![n] };
    let mut vis = CountingVisitor::new(vec![1]);
    let log = visit_paths(&fs, &vec![0], &mut vis);
    assert!(log.is_empty());
    assert_eq!(0, vis.get_filecount());
}

#[test]
fn small_tree_visits_every_file_and_pairs_dir_callbacks() {
    let fs = small_tree();
    let mut vis = CountingVisitor::new(vec![1]);
    let log = visit_paths(&fs, &vec![0], &mut vis);
    assert_eq!(
        log,
        vec![
            Event::DirEnter(0, true),
            Event::FileVisit(1),
            Event::FileVisit(2),
            Event::DirEnter(3, true),
            Event::FileVisit(4),
            Event::DirExit(3),
            Event::DirExit(0),
        ]
    );
    assert_eq!(3, vis.get_filecount());
}

#[test]
fn duplicate_seeds_are_walked_once_per_occurrence() {
    let fs = small_tree();
    let mut vis = CountingVisitor::new(vec![1]);
    let log = visit_paths(&fs, &vec![0, 0], &mut vis);
    let mut vis_once = CountingVisitor::new(vec![1]);
    let once = visit_paths(&fs, &vec![0], &mut vis_once);
    let mut doubled = once.clone();
    doubled.extend(once.iter().copied());
    assert_eq!(log, doubled);
    assert_eq!(6, vis.get_filecount());
}

#[test]
fn declining_visitor_sees_only_the_seed_directory() {
    // A visitor with no seed devices declines every descent.
    let fs = small_tree();
    let mut vis = CountingVisitor::new(vec![]);
    let log = visit_paths(&fs, &vec![0], &mut vis);
    assert_eq!(log, vec![Event::DirEnter(0, false), Event::DirExit(0)]);
    assert_eq!(0, vis.get_filecount());
}

#[test]
fn rerunning_the_walk_yields_an_identical_log() {
    let fs = small_tree();
    let mut vis1 = CountingVisitor::new(vec![1]);
    let log1 = visit_paths(&fs, &vec![0], &mut vis1);
    let mut vis2 = CountingVisitor::new(vec![1]);
    let log2 = visit_paths(&fs, &vec![0], &mut vis2);
    assert_eq!(log1, log2);
    assert_eq!(vis1.get_filecount(), vis2.get_filecount());
}

#[test]
fn deep_chain_visits_every_level() {
    // Ten nested directories, each holding one file.
    let mut nodes = Vec::new();
    for k in 0..10 {
        let dir_idx = 2 * k;
        let file_idx = dir_idx + 1;
        let mut children = vec![file_idx];
        if k < 9 {
            children.push(dir_idx + 2);
        }
        nodes.push(node(&format!("/chain/d{}", k), FileType::Directory, 1, children));
        nodes.push(node(&format!("/chain/d{}/f", k), FileType::Regular, 1, vec![]));
    }
    let fs = FsTree { nodes };
    let mut vis = CountingVisitor::new(vec![1]);
    let log = visit_paths(&fs, &vec![0], &mut vis);
    assert_eq!(10, vis.get_filecount());
    let enters = log.iter().filter(|e| matches!(e, Event::DirEnter(_, _))).count();
    let exits = log.iter().filter(|e| matches!(e, Event::DirExit(_))).count();
    assert_eq!(10, enters);
    assert_eq!(10, exits);
}

#[test]
fn two_devices_seeded_on_one_counts_only_that_device() {
    // Ten directories and one hundred files across two devices; the seed
    // sits on device 1, so only device-1 files are counted.
    let mut nodes = Vec::new();
    nodes.push(node("/root", FileType::Directory, 1, (1..10).collect()));
    for d in 1..10 {
        let dev = if d <= 4 { 1 } else { 2 };
        let first_file = if d <= 4 {
            10 + (d - 1) * 15
        } else {
            70 + (d - 5) * 8
        };
        let count = if d <= 4 { 15 } else { 8 };
        let children: Vec<usize> = (first_file..first_file + count).collect();
        nodes.push(node(&format!("/root/d{}", d), FileType::Directory, dev, children));
    }
    for f in 0..60 {
        nodes.push(node(&format!("/root/dev1file{}", f), FileType::Regular, 1, vec![]));
    }
    for f in 0..40 {
        nodes.push(node(&format!("/root/dev2file{}", f), FileType::Regular, 2, vec![]));
    }
    let fs = FsTree { nodes };
    assert_eq!(110, fs.nodes.len());
    let mut vis = CountingVisitor::new(vec![1]);
    let log = visit_paths(&fs, &vec![0], &mut vis);
    assert_eq!(60, vis.get_filecount());
    // No file or non-file visit concerns a device-2 entry.
    for ev in &log {
        if let Event::FileVisit(i) = ev {
            assert_eq!(1, fs.nodes[*i].meta.dev);
        }
        if let Event::NonfileVisit(i) = ev {
            assert_eq!(1, fs.nodes[*i].meta.dev);
        }
    }
    // Device-2 directories are entered but declined.
    for d in 5..10 {
        assert!(log.contains(&Event::DirEnter(d, false)));
    }
}

#[test]
fn stat_failed_child_is_skipped_but_siblings_are_visited() {
    let mut ghost = node("/r/ghost", FileType::Regular, 1, vec![]);
    ghost.stat_ok = false;
    let fs = FsTree {
        nodes: vec![
            node("/r", FileType::Directory, 1, vec![1, 2, 3]),
            ghost,
            node("/r/pipe", FileType::Other, 1, vec![]),
            node("/r/f", FileType::Regular, 1, vec![]),
        ],
    };
    let mut vis = CountingVisitor::new(vec![1]);
    let log = visit_paths(&fs, &vec![0], &mut vis);
    assert_eq!(
        log,
        vec![
            Event::DirEnter(0, true),
            Event::NonfileVisit(2),
            Event::FileVisit(3),
            Event::DirExit(0),
        ]
    );
    assert_eq!(1, vis.get_filecount());
}

#[test]
fn unreadable_subdirectory_still_pairs_enter_and_exit() {
    let mut locked = node("/r/locked", FileType::Directory, 1, vec![2]);
    locked.readable = false;
    let fs = FsTree {
        nodes: vec![
            node("/r", FileType::Directory, 1, vec![1]),
            locked,
            node("/r/locked/hidden", FileType::Regular, 1, vec![]),
        ],
    };
    let mut vis = CountingVisitor::new(vec![1]);
    let log = visit_paths(&fs, &vec![0], &mut vis);
    assert_eq!(
        log,
        vec![
            Event::DirEnter(0, true),
            Event::DirEnter(1, true),
            Event::DirExit(1),
            Event::DirExit(0),
        ]
    );
    assert_eq!(0, vis.get_filecount());
}

#[test]
fn mixed_seed_list_is_processed_in_order() {
    let fs = FsTree {
        nodes: vec![
            node("/f", FileType::Regular, 1, vec![]),
            node("/s", FileType::Other, 1, vec![]),
            node("/d", FileType::Directory, 1, vec![]),
        ],
    };
    let mut vis = CountingVisitor::new(vec![1]);
    let log = visit_paths(&fs, &vec![2, 1, 0], &mut vis);
    assert_eq!(
        log,
        vec![
            Event::DirEnter(2, true),
            Event::DirExit(2),
            Event::NonfileVisit(1),
            Event::FileVisit(0),
        ]
    );
    assert_eq!(1, vis.get_filecount());
}
