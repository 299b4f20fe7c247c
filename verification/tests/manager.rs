use bastion_executor::config::{low_watermark, parse_low_watermark, WINDOW_LEN};
use bastion_executor::counter::SubmissionCounter;
use bastion_executor::pool::Pool;
use bastion_executor::manager::DynamicPoolManager;

#[test]
fn new_manager_has_static_workers_only() {
    let m = DynamicPoolManager::new(2);
    assert_eq!(m.low_watermark(), 2);
    assert_eq!(m.static_workers(), 2);
    assert_eq!(m.soft_cap(), 20);
    assert_eq!(m.dynamic_count(), 0);
    assert_eq!(m.parked_count(), 0);
    assert_eq!(m.ticks(), 0);
    assert_eq!(m.samples(), Vec::<u64>::new());
    assert_eq!(m.recommended_workers(), 0);
    assert_eq!(m.desired_workers(), 2);
}

#[test]
fn accepts_low_watermarks_whose_cap_fits() {
    assert!(DynamicPoolManager::accepts(0));
    assert!(DynamicPoolManager::accepts(2));
    assert!(DynamicPoolManager::accepts(u64::MAX / 10));
    assert!(!DynamicPoolManager::accepts(u64::MAX / 10 + 1));
    assert!(!DynamicPoolManager::accepts(u64::MAX));
}

#[test]
fn cold_start_single_task_spawns_no_dynamic_worker() {
    let mut m = DynamicPoolManager::new(2);
    let submissions = SubmissionCounter::new();
    submissions.increment_frequency();
    assert_eq!(m.fast_unpark(), None);
    assert_eq!(m.dynamic_count(), 0);
    assert_eq!(m.static_workers(), 2);
}

#[test]
fn env_config_eight_static_workers() {
    assert!(parse_low_watermark("8").is_some());
    let configured = low_watermark(Some("8"));
    assert!(DynamicPoolManager::accepts(configured));
    let m = DynamicPoolManager::new(configured);
    assert_eq!(m.static_workers(), 8);
    assert_eq!(m.soft_cap(), 80);
    assert_eq!(m.dynamic_count(), 0);
}

#[test]
fn burst_raises_dynamic_workers_to_the_recommendation() {
    let mut m = DynamicPoolManager::new(2);
    let plan = m.scale(1000);
    assert_eq!(m.recommended_workers(), 20);
    assert_eq!(plan.spawn, 20);
    assert_eq!(plan.unpark, Vec::<u64>::new());
    assert_eq!(m.dynamic_count(), 20);
    assert!(m.dynamic_count() >= m.recommended_workers());
    for worker in 0..20u64 {
        assert!(m.park(worker));
    }
    for _ in 0..WINDOW_LEN {
        let plan = m.scale(0);
        assert_eq!(plan.spawn, 0);
        assert_eq!(plan.unpark, Vec::<u64>::new());
    }
    assert_eq!(m.recommended_workers(), 0);
    for worker in 0..20u64 {
        m.retire(worker);
    }
    assert_eq!(m.dynamic_count(), 0);
    assert_eq!(m.parked_count(), 0);
}

#[test]
fn scaling_follows_the_percentile_under_the_cap() {
    let mut m = DynamicPoolManager::new(2);
    let plan = m.scale(7);
    assert_eq!(m.desired_workers(), 7);
    assert_eq!(plan.spawn, 7);
    assert_eq!(m.dynamic_count(), 7);
    let plan = m.scale(3);
    assert_eq!(m.samples(), vec![7, 3]);
    assert_eq!(m.desired_workers(), 7);
    assert_eq!(plan.spawn, 0);
    let plan = m.scale(12);
    assert_eq!(m.desired_workers(), 12);
    assert_eq!(plan.spawn, 5);
    assert_eq!(m.dynamic_count(), 12);
    assert_eq!(m.ticks(), 3);
}

#[test]
fn scaling_aims_no_lower_than_the_low_watermark() {
    let mut m = DynamicPoolManager::new(4);
    let plan = m.scale(0);
    assert_eq!(m.recommended_workers(), 0);
    assert_eq!(m.desired_workers(), 4);
    assert_eq!(plan.spawn, 4);
    assert_eq!(m.dynamic_count(), 4);
    let plan = m.scale(1);
    assert_eq!(plan.spawn, 0);
    assert_eq!(m.dynamic_count(), 4);
}

#[test]
fn parked_workers_are_woken_before_new_ones_start() {
    let mut m = DynamicPoolManager::new(2);
    assert_eq!(m.scale(3).spawn, 3);
    m.park(11);
    m.park(12);
    let plan = m.scale(8);
    assert_eq!(m.desired_workers(), 8);
    assert_eq!(plan.unpark, vec![11, 12]);
    assert_eq!(plan.spawn, 3);
    assert_eq!(m.dynamic_count(), 6);
    assert_eq!(m.parked_count(), 0);
}

#[test]
fn only_as_many_parked_workers_wake_as_are_missing() {
    let mut m = DynamicPoolManager::new(2);
    assert_eq!(m.scale(5).spawn, 5);
    for worker in [1, 2, 3, 4] {
        m.park(worker);
    }
    let plan = m.scale(7);
    assert_eq!(plan.unpark, vec![1, 2]);
    assert_eq!(plan.spawn, 0);
    assert_eq!(m.dynamic_count(), 5);
    assert_eq!(m.parked_workers(), vec![3, 4]);
}

#[test]
fn overshoot_takes_no_action() {
    let mut m = DynamicPoolManager::new(1);
    assert_eq!(m.scale(9).spawn, 9);
    m.park(5);
    for _ in 0..WINDOW_LEN {
        let plan = m.scale(0);
        assert_eq!(plan.spawn, 0);
        assert_eq!(plan.unpark, Vec::<u64>::new());
        assert_eq!(m.dynamic_count(), 9);
    }
    assert!(m.is_parked(5));
}

#[test]
fn dynamic_workers_stay_under_the_soft_cap() {
    let mut m = DynamicPoolManager::new(3);
    let mut load = 1u64;
    for tick in 0..300u64 {
        let plan = m.scale(load);
        assert!(m.dynamic_count() <= m.soft_cap());
        assert!(plan.spawn <= m.soft_cap());
        assert_eq!(m.static_workers(), 3);
        load = load.wrapping_mul(6364136223846793005).wrapping_add(tick) % 500;
        if tick % 7 == 0 {
            m.retire(tick);
        }
        if tick % 5 == 0 {
            m.park(tick);
        }
    }
    assert_eq!(m.soft_cap(), 30);
}

#[test]
fn rising_load_never_lowers_dynamic_workers() {
    let mut m = DynamicPoolManager::new(2);
    let mut last_count = 0;
    let mut last_desired = 0;
    for tick in 1..=100u64 {
        m.scale(tick);
        assert!(m.dynamic_count() >= last_count);
        assert!(m.desired_workers() >= last_desired);
        assert!(m.dynamic_count() >= m.recommended_workers());
        last_count = m.dynamic_count();
        last_desired = m.desired_workers();
    }
    assert_eq!(m.dynamic_count(), 20);
}

#[test]
fn idle_pool_without_low_watermark_keeps_no_dynamic_worker() {
    let mut m = DynamicPoolManager::new(0);
    assert_eq!(m.soft_cap(), 0);
    assert_eq!(m.scale(1000).spawn, 0);
    for _ in 0..WINDOW_LEN {
        assert_eq!(m.scale(0).spawn, 0);
    }
    assert_eq!(m.dynamic_count(), 0);
}

#[test]
fn idle_pool_is_filled_up_to_the_low_watermark() {
    let mut m = DynamicPoolManager::new(2);
    m.scale(50);
    for worker in 0..20u64 {
        m.park(worker);
    }
    for _ in 0..WINDOW_LEN {
        m.scale(0);
    }
    for worker in 0..20u64 {
        m.retire(worker);
    }
    assert_eq!(m.dynamic_count(), 0);
    let plan = m.scale(0);
    assert_eq!(plan.spawn, 2);
    assert_eq!(m.dynamic_count(), 2);
}

#[test]
fn fast_unpark_wakes_exactly_one_worker() {
    let mut m = DynamicPoolManager::new(2);
    m.scale(4);
    m.park(21);
    m.park(22);
    assert_eq!(m.fast_unpark(), Some(21));
    assert_eq!(m.parked_workers(), vec![22]);
    assert_eq!(m.dynamic_count(), 4);
    assert_eq!(m.fast_unpark(), Some(22));
    assert_eq!(m.fast_unpark(), None);
}

#[test]
fn retire_forgets_the_worker_and_counts_one_less() {
    let mut m = DynamicPoolManager::new(2);
    m.scale(3);
    m.park(1);
    m.park(2);
    m.retire(1);
    assert_eq!(m.dynamic_count(), 2);
    assert_eq!(m.parked_workers(), vec![2]);
    assert!(!m.is_parked(1));
    m.retire(9);
    assert_eq!(m.dynamic_count(), 1);
    assert_eq!(m.parked_workers(), vec![2]);
    m.retire(2);
    m.retire(2);
    assert_eq!(m.dynamic_count(), 0);
    assert_eq!(m.parked_count(), 0);
}

#[test]
fn failed_spawn_is_not_counted() {
    let mut m = DynamicPoolManager::new(2);
    assert_eq!(m.scale(3).spawn, 3);
    m.spawn_failed();
    assert_eq!(m.dynamic_count(), 2);
    m.spawn_failed();
    m.spawn_failed();
    m.spawn_failed();
    assert_eq!(m.dynamic_count(), 0);
    assert_eq!(m.scale(3).spawn, 3);
}

#[test]
fn tick_scales_for_what_was_counted() {
    let mut m = DynamicPoolManager::new(2);
    let submissions = SubmissionCounter::new();
    for _ in 0..6 {
        submissions.increment_frequency();
    }
    let plan = m.scale_pool(&submissions);
    assert_eq!(m.samples(), vec![6]);
    assert_eq!(plan.spawn, 6);
    let plan = m.scale_pool(&submissions);
    assert_eq!(m.samples(), vec![6, 0]);
    assert_eq!(plan.spawn, 0);
    assert_eq!(m.ticks(), 2);
}

#[test]
fn two_managers_share_nothing() {
    let mut blocking = DynamicPoolManager::new(2);
    let mut other = DynamicPoolManager::new(2);
    blocking.scale(100);
    blocking.park(1);
    assert_eq!(other.dynamic_count(), 0);
    assert_eq!(other.parked_count(), 0);
    assert_eq!(other.samples(), Vec::<u64>::new());
    assert_eq!(other.scale(1).spawn, 2);
    assert_eq!(blocking.dynamic_count(), 20);
}

#[test]
fn tick_takes_the_submissions_of_the_pool() {
    let pool = Pool::new();
    let mut m = DynamicPoolManager::new(1);
    for _ in 0..4 {
        pool.submissions().increment_frequency();
    }
    let plan = m.scale_pool(pool.submissions());
    assert_eq!(plan.spawn, 4);
    assert_eq!(m.samples(), vec![4]);
    assert_eq!(pool.submissions().take(), 0);
}

#[test]
fn idle_retirements_are_replaced_only_up_to_the_low_watermark() {
    let mut m = DynamicPoolManager::new(3);
    assert_eq!(m.scale(40).spawn, 30);
    for _ in 0..WINDOW_LEN {
        m.scale(0);
    }
    assert_eq!(m.recommended_workers(), 0);
    let start = m.dynamic_count();
    for retired in 1..=40u64 {
        m.retire(retired);
        if retired % 4 == 0 {
            m.scale(0);
        }
        let left = start.saturating_sub(retired);
        assert!(m.dynamic_count() <= left.max(3));
    }
    assert_eq!(m.scale(0).spawn + m.dynamic_count(), 3);
    assert_eq!(m.dynamic_count(), 3);
}

#[test]
fn one_tick_reaches_the_recommendation_where_none_is_parked() {
    for (low, load) in [(2u64, 1000u64), (2, 7), (5, 0), (1, 10), (1, 11), (0, 50)] {
        let mut m = DynamicPoolManager::new(low);
        m.scale(load);
        assert_eq!(m.recommended_workers(), load.min(10 * low));
        assert!(m.dynamic_count() >= m.recommended_workers());
        assert_eq!(m.dynamic_count(), m.desired_workers());
    }
}
