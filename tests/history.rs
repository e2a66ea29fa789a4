use ml_gui::history::CostHistory;

#[test]
fn push_appends_and_counts_epochs() {
    let mut h = CostHistory::new();
    h.push(5, 20);
    h.push(7, 20);
    assert_eq!(h.costs, vec![5, 7]);
    assert_eq!(h.epochs, 40);
}

#[test]
fn expiration_trims_once_per_period() {
    let mut h = CostHistory::new();
    h.set_expiration(true, 2);
    for c in 1..=10u64 {
        h.push(c, 1);
    }
    // Epochs 3, 6 and 9 each drop the oldest cost.
    assert_eq!(h.costs, vec![4, 5, 6, 7, 8, 9, 10]);
}

#[test]
fn expiration_off_keeps_everything() {
    let mut h = CostHistory::new();
    h.set_expiration(false, 0);
    for c in 0..50u64 {
        h.push(c, 1);
    }
    assert_eq!(h.costs.len(), 50);
}

#[test]
fn expiration_every_zero_keeps_one() {
    let mut h = CostHistory::new();
    h.set_expiration(true, 0);
    for c in 0..5u64 {
        h.push(c, 3);
    }
    assert!(h.costs.is_empty());
    h.set_expiration(true, 1);
    h.push(9, 2);
    assert_eq!(h.costs, vec![9]);
}

#[test]
fn compact_drops_a_chunk_over_two_hundred() {
    let mut h = CostHistory::new();
    for c in 0..250u64 {
        h.push(c, 1);
    }
    h.compact();
    assert_eq!(h.costs.len(), 150);
    assert_eq!(h.costs[0], 100);
    assert_eq!(h.costs[149], 249);
}

#[test]
fn compact_leaves_two_hundred_alone() {
    let mut h = CostHistory::new();
    for c in 0..200u64 {
        h.push(c, 1);
    }
    h.compact();
    assert_eq!(h.costs.len(), 200);
    h.push(200, 1);
    h.compact();
    assert_eq!(h.costs.len(), 101);
    assert_eq!(h.costs[0], 100);
}

#[test]
fn epoch_count_stops_at_the_top() {
    let mut h = CostHistory::new();
    h.push(1, usize::MAX - 1);
    h.push(2, 5);
    assert_eq!(h.epochs, usize::MAX);
    assert_eq!(h.costs, vec![1, 2]);
}

#[test]
fn clear_resets() {
    let mut h = CostHistory::new();
    h.set_expiration(true, 4);
    h.push(1, 1);
    h.clear();
    assert!(h.costs.is_empty());
    assert_eq!(h.epochs, 0);
    assert!(h.expire);
}
