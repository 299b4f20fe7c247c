use bastion_executor::config::WINDOW_LEN;
use bastion_executor::counter::SubmissionCounter;
use bastion_executor::sampler::LoadSampler;

#[test]
fn new_sampler_is_empty() {
    let s = LoadSampler::new();
    assert_eq!(s.len(), 0);
    assert_eq!(s.ticks(), 0);
    assert_eq!(s.samples(), Vec::<u64>::new());
    assert_eq!(s.percentile(), 0);
    assert_eq!(s.mean(), 0);
    assert_eq!(s.recommended_workers(20), 0);
}

#[test]
fn record_appends_in_order() {
    let mut s = LoadSampler::new();
    s.record(3);
    s.record(1);
    s.record(2);
    assert_eq!(s.samples(), vec![3, 1, 2]);
    assert_eq!(s.ticks(), 3);
    assert_eq!(s.len(), 3);
}

#[test]
fn full_window_drops_the_oldest_sample() {
    let mut s = LoadSampler::new();
    for i in 0..WINDOW_LEN as u64 {
        s.record(i);
    }
    assert_eq!(s.len(), WINDOW_LEN);
    assert_eq!(s.samples()[0], 0);
    s.record(1000);
    assert_eq!(s.len(), WINDOW_LEN);
    assert_eq!(s.samples()[0], 1);
    assert_eq!(s.samples()[WINDOW_LEN - 1], 1000);
    assert_eq!(s.ticks(), WINDOW_LEN as u64 + 1);
    let expected: Vec<u64> = (1..WINDOW_LEN as u64).chain(std::iter::once(1000)).collect();
    assert_eq!(s.samples(), expected);
}

#[test]
fn window_never_grows_past_its_length() {
    let mut s = LoadSampler::new();
    for i in 0..1000u64 {
        s.record(i);
        assert!(s.len() <= WINDOW_LEN);
        assert_eq!(s.ticks(), i + 1);
    }
    let expected: Vec<u64> = (1000 - WINDOW_LEN as u64..1000).collect();
    assert_eq!(s.samples(), expected);
}

#[test]
fn recommendation_is_the_percentile_under_the_cap() {
    let mut s = LoadSampler::new();
    for i in 1..=20u64 {
        s.record(i);
    }
    assert_eq!(s.percentile(), 19);
    assert_eq!(s.recommended_workers(100), 19);
    assert_eq!(s.recommended_workers(19), 19);
    assert_eq!(s.recommended_workers(5), 5);
    assert_eq!(s.recommended_workers(0), 0);
    assert_eq!(s.mean(), 10);
}

#[test]
fn rising_samples_do_not_lower_the_percentile() {
    let mut s = LoadSampler::new();
    let mut last = 0;
    for i in 0..200u64 {
        s.record(i * 3);
        let p = s.percentile();
        assert!(p >= last);
        last = p;
    }
}

#[test]
fn idle_window_recommends_no_worker() {
    let mut s = LoadSampler::new();
    s.record(500);
    s.record(900);
    for _ in 0..WINDOW_LEN {
        s.record(0);
    }
    assert_eq!(s.percentile(), 0);
    assert_eq!(s.recommended_workers(20), 0);
}

#[test]
fn counter_hands_out_what_was_counted_once() {
    let c = SubmissionCounter::new();
    assert_eq!(c.take(), 0);
    c.increment_frequency();
    c.increment_frequency();
    c.increment_frequency();
    assert_eq!(c.take(), 3);
    assert_eq!(c.take(), 0);
}
