use bastion_executor::registry::ParkRegistry;

#[test]
fn new_registry_is_empty() {
    let mut r = ParkRegistry::new();
    assert_eq!(r.len(), 0);
    assert!(!r.contains(1));
    assert_eq!(r.wake_one(), None);
    assert_eq!(r.wake(3), Vec::<u64>::new());
    assert!(!r.remove(1));
}

#[test]
fn a_worker_parks_once() {
    let mut r = ParkRegistry::new();
    assert!(r.park(7));
    assert!(r.park(9));
    assert!(!r.park(7));
    assert_eq!(r.workers(), vec![7, 9]);
    assert_eq!(r.len(), 2);
    assert!(r.contains(7));
    assert!(!r.contains(8));
}

#[test]
fn the_worker_parked_longest_wakes_first() {
    let mut r = ParkRegistry::new();
    for w in [4, 2, 8, 6] {
        r.park(w);
    }
    assert_eq!(r.wake_one(), Some(4));
    assert_eq!(r.workers(), vec![2, 8, 6]);
    assert_eq!(r.wake(2), vec![2, 8]);
    assert_eq!(r.workers(), vec![6]);
    assert_eq!(r.wake(5), vec![6]);
    assert_eq!(r.len(), 0);
}

#[test]
fn waking_none_changes_nothing() {
    let mut r = ParkRegistry::new();
    r.park(1);
    assert_eq!(r.wake(0), Vec::<u64>::new());
    assert_eq!(r.workers(), vec![1]);
}

#[test]
fn remove_takes_out_the_worker_only() {
    let mut r = ParkRegistry::new();
    for w in [4, 2, 8, 6] {
        r.park(w);
    }
    assert!(r.remove(8));
    assert_eq!(r.workers(), vec![4, 2, 6]);
    assert!(!r.remove(8));
    assert!(r.remove(4));
    assert!(r.remove(6));
    assert_eq!(r.workers(), vec![2]);
    assert!(r.park(8));
    assert_eq!(r.workers(), vec![2, 8]);
}
