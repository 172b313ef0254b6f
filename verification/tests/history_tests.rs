use hardware_monitor::history::HistoryBuffer;

#[test]
fn empty_buffer() {
    let h = HistoryBuffer::new(60);
    assert_eq!(h.len(), 0);
    assert!(h.is_empty());
    assert_eq!(h.snapshot(10), Vec::<u64>::new());
}

#[test]
fn ring_keeps_last_capacity_values() {
    let mut h = HistoryBuffer::new(3);
    for v in 1..=7u64 {
        h.push(v);
    }
    // seven pushes into capacity three leave exactly the last three, in push order
    assert_eq!(h.len(), 3);
    assert_eq!(h.snapshot(3), vec![7, 6, 5]);
}

#[test]
fn ring_below_capacity_keeps_everything() {
    let mut h = HistoryBuffer::new(60);
    for v in 1..=10u64 {
        h.push(v);
    }
    assert_eq!(h.len(), 10);
    let all = h.snapshot(60);
    assert_eq!(all.len(), 10);
    assert_eq!(all[0], 10);
    assert_eq!(all[9], 1);
}

#[test]
fn push_at_capacity_evicts_exactly_the_oldest() {
    let mut h = HistoryBuffer::new(2);
    h.push(11);
    h.push(22);
    h.push(33);
    assert_eq!(h.snapshot(2), vec![33, 22]);
}

#[test]
fn snapshot_newest_first() {
    let mut h = HistoryBuffer::new(60);
    for v in 1..=10u64 {
        h.push(v);
    }
    assert_eq!(h.snapshot(3), vec![10, 9, 8]);
}

#[test]
fn snapshot_larger_than_contents() {
    let mut h = HistoryBuffer::new(60);
    h.push(5);
    h.push(6);
    assert_eq!(h.snapshot(100), vec![6, 5]);
}

#[test]
fn snapshot_does_not_mutate() {
    let mut h = HistoryBuffer::new(60);
    h.push(1);
    h.push(2);
    let _ = h.snapshot(1);
    let _ = h.snapshot(2);
    assert_eq!(h.len(), 2);
    assert_eq!(h.snapshot(2), vec![2, 1]);
}
