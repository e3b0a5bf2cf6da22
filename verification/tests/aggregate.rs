use linecount::aggregate::{sum_counts, Aggregator};

#[test]
fn exact_sums_are_kept() {
    let mut acc = Aggregator::new();
    assert_eq!(acc.total(), 0);
    acc.add(5);
    acc.add(20);
    acc.add(0);
    assert_eq!(acc.total(), 25);
}

#[test]
fn overflow_collapses_to_the_sentinel() {
    let mut acc = Aggregator::new();
    acc.add(usize::MAX);
    acc.add(1);
    assert_eq!(acc.total(), usize::MAX);

    let mut near = Aggregator::new();
    near.add(usize::MAX - 1);
    near.add(5);
    assert_eq!(near.total(), usize::MAX);
}

#[test]
fn the_sentinel_is_kept_once_reached() {
    let mut acc = Aggregator::new();
    acc.add(usize::MAX);
    acc.add(usize::MAX);
    acc.add(0);
    assert_eq!(acc.total(), usize::MAX);
}

#[test]
fn summing_a_sequence_matches_folding() {
    assert_eq!(sum_counts(&vec![]), 0);
    assert_eq!(sum_counts(&vec![1, 2, 3]), 6);
    assert_eq!(sum_counts(&vec![usize::MAX, 1]), usize::MAX);
    assert_eq!(sum_counts(&vec![usize::MAX - 2, 1, 1, 1]), usize::MAX);
}
