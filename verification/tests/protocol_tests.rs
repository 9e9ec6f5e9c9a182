use cfilevisit::active::ActiveState;
use cfilevisit::countingvisitor::CountingVisitor;
use cfilevisit::queue::WorkQueue;

#[test]
fn new_when_called_file_count_equals_zero() {
    let mut sut = CountingVisitor::new(Vec::new());

    let result = sut.get_filecount();

    assert_eq!(0, result);
}

#[test]
fn counting_visitor_recognizes_its_seed_devices() {
    let vis = CountingVisitor::new(vec![3, 7]);
    assert!(vis.has_device(3));
    assert!(vis.has_device(7));
    assert!(!vis.has_device(5));
}

#[test]
fn work_queue_pops_in_lifo_order() {
    let mut q = WorkQueue::empty();
    assert!(q.is_empty());
    q.push("/a".to_string());
    q.push("/b".to_string());
    q.push("/c".to_string());
    assert_eq!(3, q.len());
    assert_eq!(Some("/c".to_string()), q.pop());
    assert_eq!(Some("/b".to_string()), q.pop());
    assert_eq!(Some("/a".to_string()), q.pop());
    assert_eq!(None, q.pop());
    assert!(q.is_empty());
}

#[test]
fn work_queue_seeded_with_items_drains_them_in_reverse() {
    let mut q = WorkQueue::with_items(vec!["/r1".to_string(), "/r2".to_string()]);
    assert_eq!(Some("/r2".to_string()), q.pop());
    assert_eq!(Some("/r1".to_string()), q.pop());
    assert_eq!(None, q.pop());
}

#[test]
fn four_workers_parking_lets_the_dispatcher_terminate() {
    // The termination detector's run on an immediately empty queue: all
    // four workers park in turn; only then is the walk declared finished.
    let mut s = ActiveState::new(4);
    assert!(!s.is_terminated());
    for remaining in (0..4).rev() {
        assert!(!s.all_parked());
        s.park_worker();
        assert_eq!(remaining, s.active_count());
    }
    assert!(s.all_parked());
    s.declare_terminated();
    assert!(s.is_terminated());
    assert_eq!(4, s.worker_count());
}

#[test]
fn a_woken_worker_counts_as_active_again() {
    let mut s = ActiveState::new(2);
    s.park_worker();
    s.park_worker();
    assert!(s.all_parked());
    s.wake_worker();
    assert!(!s.all_parked());
    assert_eq!(1, s.active_count());
}
