use kernel::scheduler::{HangingTask, TaskManager};
use std::cmp::Ordering;

#[test]
fn ready_queue_is_first_in_first_out() {
    let mut m = TaskManager::new();
    assert_eq!(m.fetch(), None);
    m.add(3);
    m.add(1);
    m.add(2);
    assert_eq!(m.fetch(), Some(3));
    m.add(7);
    assert_eq!(m.fetch(), Some(1));
    assert_eq!(m.fetch(), Some(2));
    assert_eq!(m.fetch(), Some(7));
    assert_eq!(m.fetch(), None);
}

#[test]
fn hanging_task_wakes_at_sleep_time_plus_duration() {
    let h = HangingTask::new(100, 25, 9);
    assert_eq!(h.wake_up_time(), 125);
    assert_eq!(h.task, 9);
}

#[test]
fn earlier_wake_up_is_greater() {
    let a = HangingTask::new(0, 10, 1);
    let b = HangingTask::new(0, 20, 2);
    assert_eq!(a.partial_cmp(&b), Some(Ordering::Greater));
    assert_eq!(b.partial_cmp(&a), Some(Ordering::Less));
    assert_eq!(a.partial_cmp(&HangingTask::new(5, 5, 3)), Some(Ordering::Equal));
}

#[test]
fn check_hanging_wakes_earliest_due_task() {
    let mut m = TaskManager::new();
    assert_eq!(m.check_hanging(1000), None);
    m.hang(0, 50, 1);
    m.hang(0, 20, 2);
    m.hang(10, 30, 3);
    assert_eq!(m.check_hanging(19), None);
    assert_eq!(m.check_hanging(20), Some(2));
    assert_eq!(m.check_hanging(39), None);
    assert_eq!(m.check_hanging(100), Some(3));
    assert_eq!(m.check_hanging(100), Some(1));
    assert_eq!(m.check_hanging(100), None);
    assert_eq!(m.fetch(), None);
}

#[test]
fn check_sleep_compares_with_now() {
    let m = TaskManager::new();
    let h = HangingTask::new(10, 5, 4);
    assert!(!m.check_sleep(&h, 14));
    assert!(m.check_sleep(&h, 15));
}

#[test]
fn unblock_moves_a_blocked_task_to_the_ready_queue() {
    let mut m = TaskManager::new();
    m.block_task(5);
    m.block(6);
    m.unblock_task(8);
    assert_eq!(m.fetch(), None);
    m.unblock_task(6);
    assert_eq!(m.fetch(), Some(6));
    m.unblock_task(6);
    assert_eq!(m.fetch(), None);
    m.add(1);
    m.unblock_task(5);
    assert_eq!(m.fetch(), Some(1));
    assert_eq!(m.fetch(), Some(5));
}
