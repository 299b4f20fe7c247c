use bastion_executor::stats::{
    count_at_most_in, count_below_in, mean_of, percentile_of, select_kth, total_of,
};

#[test]
fn counts_samples_below_and_at_most() {
    let w = vec![5, 1, 3, 3, 9];
    assert_eq!(count_below_in(&w, 3), 1);
    assert_eq!(count_at_most_in(&w, 3), 3);
    assert_eq!(count_below_in(&w, 0), 0);
    assert_eq!(count_at_most_in(&w, 0), 0);
    assert_eq!(count_below_in(&w, 10), 5);
    assert_eq!(count_at_most_in(&w, u64::MAX), 5);
    assert_eq!(count_below_in(&Vec::new(), 7), 0);
}

#[test]
fn selects_each_place_of_a_window() {
    let w = vec![5, 1, 3, 3, 9];
    assert_eq!(select_kth(&w, 1), Some(1));
    assert_eq!(select_kth(&w, 2), Some(3));
    assert_eq!(select_kth(&w, 3), Some(3));
    assert_eq!(select_kth(&w, 4), Some(5));
    assert_eq!(select_kth(&w, 5), Some(9));
}

#[test]
fn selects_nothing_outside_the_window() {
    let w = vec![5, 1, 3];
    assert_eq!(select_kth(&w, 0), None);
    assert_eq!(select_kth(&w, 4), None);
    assert_eq!(select_kth(&Vec::new(), 1), None);
}

#[test]
fn selection_agrees_with_sorting() {
    let w: Vec<u64> = vec![17, 3, 3, 99, 0, 42, 42, 42, 7, 1000, 5, 6, 6, 1, u64::MAX];
    let mut sorted = w.clone();
    sorted.sort();
    for k in 1..=w.len() {
        assert_eq!(select_kth(&w, k), Some(sorted[k - 1]));
    }
}

#[test]
fn percentile_stands_at_the_nearest_rank() {
    for (n, rank) in [(1u64, 1u64), (2, 2), (19, 19), (20, 19), (21, 20), (40, 38), (61, 58), (100, 95), (1000, 950)] {
        let w: Vec<u64> = (1..=n).rev().collect();
        assert_eq!(percentile_of(&w), rank, "{} samples", n);
    }
}

#[test]
fn percentile_of_one_to_hundred() {
    let w: Vec<u64> = (1..=100).rev().collect();
    assert_eq!(percentile_of(&w), 95);
    let w: Vec<u64> = (1..=100).map(|i| i * 10).collect();
    assert_eq!(percentile_of(&w), 950);
}

#[test]
fn percentile_of_small_windows() {
    assert_eq!(percentile_of(&Vec::new()), 0);
    assert_eq!(percentile_of(&vec![7]), 7);
    assert_eq!(percentile_of(&vec![7, 2]), 7);
    assert_eq!(percentile_of(&vec![0, 0, 0]), 0);
    assert_eq!(percentile_of(&vec![u64::MAX, 1]), u64::MAX);
}

#[test]
fn one_burst_leaves_the_percentile_after_nineteen_idle_ticks() {
    let mut w: Vec<u64> = vec![1000];
    for _ in 0..18 {
        w.push(0);
        assert_eq!(percentile_of(&w), 1000);
    }
    w.push(0);
    assert_eq!(w.len(), 20);
    assert_eq!(percentile_of(&w), 0);
}

#[test]
fn total_and_mean_round_down() {
    assert_eq!(total_of(&vec![1, 2, 4]), 7);
    assert_eq!(mean_of(&vec![1, 2, 4]), 2);
    assert_eq!(mean_of(&Vec::new()), 0);
    assert_eq!(mean_of(&vec![u64::MAX, u64::MAX]), u64::MAX);
    assert_eq!(total_of(&vec![u64::MAX, u64::MAX]), 2 * (u64::MAX as u128));
}
