use ris_jobs::errors::Timeout;
use ris_jobs::job::Job;
use ris_jobs::job_future::{FutureState, WaitStep};
use ris_jobs::job_system::{init, run_pending_job, setup_worker_thread, submit, Dispatch, Submitted};

#[test]
fn wait_returns_the_exact_primitive_value() {
    let mut cell: FutureState<u64> = FutureState::new();
    cell.set(42);
    match cell.wait_step(0, None) {
        WaitStep::Finished(value) => assert_eq!(value, 42),
        _ => panic!("a ready future must finish the wait"),
    }
}

#[test]
fn wait_returns_the_exact_composite_value() {
    let mut cell: FutureState<(String, Vec<i32>)> = FutureState::new();
    cell.set((String::from("settings saved"), vec![-1, 0, 7]));
    match cell.wait_step(1000, Some(1)) {
        WaitStep::Finished((text, numbers)) => {
            assert_eq!(text, "settings saved");
            assert_eq!(numbers, vec![-1, 0, 7]);
        }
        _ => panic!("a ready future must finish the wait, deadline or not"),
    }
}

#[test]
fn take_consumes_exactly_once() {
    let mut cell: FutureState<u32> = FutureState::new();
    assert!(cell.take().is_none());
    cell.set(7);
    assert_eq!(cell.take(), Some(7));
}

#[test]
fn pending_wait_expires_only_past_the_deadline() {
    let mut cell: FutureState<u32> = FutureState::new();
    assert!(matches!(cell.wait_step(0, Some(5)), WaitStep::HelpOut));
    assert!(matches!(cell.wait_step(5, Some(5)), WaitStep::HelpOut));
    assert!(matches!(cell.wait_step(6, Some(5)), WaitStep::Expired(Timeout)));
    assert!(matches!(cell.wait_step(1_000_000, None), WaitStep::HelpOut));
    cell.set(3);
    match cell.wait_step(1_000_000, Some(5)) {
        WaitStep::Finished(value) => assert_eq!(value, 3),
        _ => panic!("a value that arrived wins over the deadline"),
    }
}

#[test]
fn done_is_immediately_ready() {
    let mut cell = FutureState::done();
    match cell.wait_step(0, Some(0)) {
        WaitStep::Finished(()) => {}
        _ => panic!("done() must be ready at once"),
    }
}

#[test]
fn job_invocation_sets_its_future() {
    let mut cell: FutureState<i32> = FutureState::new();
    let job = Job::new(|| ());
    job.invoke();
    cell.set(-3);
    assert_eq!(cell.take(), Some(-3));
}

#[test]
fn full_buffer_submission_still_completes_its_future() {
    let mut guard = init::<u64>(1, 1);
    let ctx = setup_worker_thread(0, 1);
    let mut futures: Vec<FutureState<u64>> = (0..2).map(|_| FutureState::new()).collect();

    // First job queues; the second finds the buffer full and comes back for
    // inline invocation — invoking it writes its future immediately.
    match submit(&mut guard.system, &ctx, 0u64) {
        Submitted::Queued => {}
        Submitted::RunInline(_) => panic!("the buffer had room"),
    }
    match submit(&mut guard.system, &ctx, 1u64) {
        Submitted::RunInline(job) => futures[job as usize].set(job * 10),
        Submitted::Queued => panic!("the buffer was full"),
    }
    // Draining the pool runs the queued job, writing the other future.
    while let Dispatch::Run(job) = run_pending_job(&mut guard.system, &ctx) {
        futures[job as usize].set(job * 10);
    }
    for (index, cell) in futures.iter_mut().enumerate() {
        match cell.wait_step(0, None) {
            WaitStep::Finished(value) => assert_eq!(value, index as u64 * 10),
            _ => panic!("every submission must reach Ready"),
        }
    }
}
