use ris_jobs::job_system::{init, lock, setup_worker_thread, submit, LockStep, Submitted};
use ris_jobs::mutex::CoopMutex;

#[test]
fn free_mutex_is_acquired_at_once() {
    let mut guard = init::<u64>(8, 2);
    let ctx = setup_worker_thread(0, 2);
    let mut mutex = CoopMutex::new(5u32);
    match lock(&mut mutex, &mut guard.system, &ctx) {
        LockStep::Acquired => {}
        _ => panic!("a free mutex must be acquired at once"),
    }
    assert_eq!(*mutex.value(), 5);
    mutex.set_value(6);
    mutex.unlock();
}

#[test]
fn contended_lock_helps_with_pending_work() {
    // One simulated thread holds the mutex while another, with jobs queued,
    // keeps asking for it: each round runs a pending job instead of
    // blocking, and once the holder releases, the waiter gets the lock —
    // both sides made progress the whole time.
    let mut guard = init::<u64>(8, 2);
    let holder = setup_worker_thread(0, 2);
    let waiter = setup_worker_thread(1, 2);
    let mut mutex = CoopMutex::new(0u32);

    match lock(&mut mutex, &mut guard.system, &holder) {
        LockStep::Acquired => {}
        _ => panic!("a free mutex must be acquired at once"),
    }

    for token in [1u64, 2] {
        assert!(matches!(submit(&mut guard.system, &waiter, token), Submitted::Queued));
    }

    let mut helped = Vec::new();
    for _ in 0..2 {
        match lock(&mut mutex, &mut guard.system, &waiter) {
            LockStep::Helped(job) => helped.push(job),
            _ => panic!("a held mutex with pending work means helping"),
        }
    }
    assert_eq!(helped, vec![2, 1]);

    // Nothing left to help with: the waiter is told to yield, not to spin.
    assert!(matches!(lock(&mut mutex, &mut guard.system, &waiter), LockStep::Starved));

    mutex.unlock();
    match lock(&mut mutex, &mut guard.system, &waiter) {
        LockStep::Acquired => {}
        _ => panic!("the released mutex must be acquired"),
    }
}
