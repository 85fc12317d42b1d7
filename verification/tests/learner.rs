use recur64::learner::{next_window, sample_age, shuffle_order, SampleAge, SampleProvenance};
use recur64::rng::Rng;

/// The Fisher–Yates pass written out directly on a slice.
fn reference_shuffle(n: usize, seed: u64) -> Vec<usize> {
    let mut v: Vec<usize> = (0..n).collect();
    let mut rng = Rng::new(seed);
    for i in (1..n).rev() {
        let j = (rng.next_u64() as usize) % (i + 1);
        v.swap(i, j);
    }
    v
}

#[test]
fn shuffle_order_is_a_seeded_permutation() {
    for n in [0usize, 1, 2, 5, 37] {
        let order = shuffle_order(n, 11);
        assert_eq!(order, reference_shuffle(n, 11));
        let mut sorted = order.clone();
        sorted.sort();
        assert_eq!(sorted, (0..n).collect::<Vec<_>>());
        assert_eq!(shuffle_order(n, 11), order);
    }
    assert_ne!(shuffle_order(37, 1), shuffle_order(37, 2));
}

#[test]
fn windows_wrap_for_reuse() {
    assert_eq!(next_window(0, 4, 10), (0, 4));
    assert_eq!(next_window(4, 4, 10), (4, 8));
    assert_eq!(next_window(8, 4, 10), (0, 4));
    assert_eq!(next_window(0, 16, 10), (0, 10));
    assert_eq!(next_window(10, 0, 10), (10, 10));
}

#[test]
fn sample_age_counts_whole_cycles() {
    assert_eq!(sample_age(100, 100, 24), SampleAge::Fresh);
    assert_eq!(sample_age(100, 150, 24), SampleAge::Fresh);
    assert_eq!(sample_age(100, 99, 24), SampleAge::Cycles(1));
    assert_eq!(sample_age(100, 76, 24), SampleAge::Cycles(1));
    assert_eq!(sample_age(100, 75, 24), SampleAge::Cycles(2));
    assert_eq!(sample_age(100, 0, 24), SampleAge::Cycles(5));
    assert_eq!(sample_age(100, 50, 0), SampleAge::Unknown);
}

#[test]
fn provenance_tallies_fresh_and_old_samples() {
    let mut p = SampleProvenance::new();
    for id in [99u64, 100, 101, 75, 10] {
        p.record(Some(100), id, 24);
    }
    assert_eq!(p.consumed, 5);
    assert_eq!(p.fresh, 2);
    assert_eq!(p.age_sum, 1 + 2 + 4);
    p.record(None, 0, 24);
    assert_eq!(p.consumed, 6);
    assert_eq!(p.fresh, 2);
    assert_eq!(p.age_sum, 7);
}
