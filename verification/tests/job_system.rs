use ris_jobs::job_system::{
    empty_buffer, init, pop_job, run_pending_job, setup_worker_thread, shut_down,
    shutdown_requested, steal_job, submit, thread_index, Dispatch, Submitted,
};

#[test]
fn init_builds_an_idle_pool() {
    let guard = init::<u64>(16, 3);
    let mut guard = guard;
    assert!(!shutdown_requested(&guard.system));
    let ctx = setup_worker_thread(0, 3);
    match run_pending_job(&mut guard.system, &ctx) {
        Dispatch::Yield => {}
        Dispatch::Run(_) => panic!("a fresh pool has nothing to run"),
    }
}

#[test]
fn thread_index_reports_the_binding() {
    let ctx = setup_worker_thread(2, 4);
    assert_eq!(thread_index(Some(&ctx)), Some(2));
    assert_eq!(thread_index(None), None);
}

#[test]
fn submit_queues_until_full_then_hands_back() {
    let mut guard = init::<u64>(2, 1);
    let ctx = setup_worker_thread(0, 1);
    assert!(matches!(submit(&mut guard.system, &ctx, 1), Submitted::Queued));
    assert!(matches!(submit(&mut guard.system, &ctx, 2), Submitted::Queued));
    match submit(&mut guard.system, &ctx, 3) {
        Submitted::RunInline(job) => assert_eq!(job, 3),
        Submitted::Queued => panic!("the buffer was full"),
    }
}

#[test]
fn dispatch_pops_local_lifo_first() {
    let mut guard = init::<u64>(8, 2);
    let ctx = setup_worker_thread(0, 2);
    for token in [1u64, 2, 3] {
        assert!(matches!(submit(&mut guard.system, &ctx, token), Submitted::Queued));
    }
    match run_pending_job(&mut guard.system, &ctx) {
        Dispatch::Run(job) => assert_eq!(job, 3),
        Dispatch::Yield => panic!("local work was pending"),
    }
    assert_eq!(pop_job(&mut guard.system, &ctx).unwrap(), 2);
}

#[test]
fn dispatch_steals_oldest_from_first_nonempty_peer() {
    let mut guard = init::<u64>(8, 3);
    let producer = setup_worker_thread(1, 3);
    for token in [10u64, 11, 12] {
        assert!(matches!(submit(&mut guard.system, &producer, token), Submitted::Queued));
    }
    let idle = setup_worker_thread(0, 3);
    match run_pending_job(&mut guard.system, &idle) {
        Dispatch::Run(job) => assert_eq!(job, 10),
        Dispatch::Yield => panic!("peer work was pending"),
    }
    assert_eq!(steal_job(&mut guard.system, &idle).unwrap(), 11);
    // The producer keeps its own young end.
    assert_eq!(pop_job(&mut guard.system, &producer).unwrap(), 12);
}

#[test]
fn empty_buffer_drains_only_the_callers_queue() {
    let mut guard = init::<u64>(8, 2);
    let w0 = setup_worker_thread(0, 2);
    let w1 = setup_worker_thread(1, 2);
    for token in [1u64, 2] {
        assert!(matches!(submit(&mut guard.system, &w0, token), Submitted::Queued));
    }
    assert!(matches!(submit(&mut guard.system, &w1, 9), Submitted::Queued));
    let drained = empty_buffer(&mut guard.system, &w0);
    assert_eq!(drained, vec![2, 1]);
    assert!(pop_job(&mut guard.system, &w0).is_err());
    assert_eq!(pop_job(&mut guard.system, &w1).unwrap(), 9);
}

#[test]
fn shutdown_drains_every_submitted_job() {
    let mut guard = init::<u64>(16, 3);
    let w0 = setup_worker_thread(0, 3);
    let w2 = setup_worker_thread(2, 3);
    let submitted = 10u64;
    let mut ran = vec![false; submitted as usize];
    for token in 0..6u64 {
        match submit(&mut guard.system, &w0, token) {
            Submitted::Queued => {}
            Submitted::RunInline(job) => ran[job as usize] = true,
        }
    }
    for token in 6..submitted {
        match submit(&mut guard.system, &w2, token) {
            Submitted::Queued => {}
            Submitted::RunInline(job) => ran[job as usize] = true,
        }
    }
    for job in shut_down(guard) {
        assert!(!ran[job as usize], "job delivered twice");
        ran[job as usize] = true;
    }
    assert!(ran.iter().all(|done| *done), "a job was lost");
}

#[test]
fn every_interleaving_runs_each_job_once() {
    for workers in [1usize, 2, 4, 8] {
        let per_worker = 5u64;
        let mut guard = init::<u64>(4, workers);
        let contexts: Vec<_> = (0..workers).map(|i| setup_worker_thread(i, workers)).collect();
        let total = workers as u64 * per_worker;
        let mut ran = vec![false; total as usize];
        for (w, ctx) in contexts.iter().enumerate() {
            for k in 0..per_worker {
                let token = w as u64 * per_worker + k;
                match submit(&mut guard.system, ctx, token) {
                    Submitted::Queued => {}
                    Submitted::RunInline(job) => {
                        assert!(!ran[job as usize]);
                        ran[job as usize] = true;
                    }
                }
            }
        }
        // Round-robin dispatch until the whole pool reports idle.
        loop {
            let mut any = false;
            for ctx in &contexts {
                if let Dispatch::Run(job) = run_pending_job(&mut guard.system, ctx) {
                    assert!(!ran[job as usize], "job delivered twice");
                    ran[job as usize] = true;
                    any = true;
                }
            }
            if !any {
                break;
            }
        }
        assert!(shut_down(guard).is_empty());
        assert!(ran.iter().all(|done| *done), "a job was lost");
    }
}

#[test]
fn restart_accepts_new_work_under_new_worker_count() {
    let mut guard = init::<u64>(8, 2);
    let ctx = setup_worker_thread(0, 2);
    assert!(matches!(submit(&mut guard.system, &ctx, 1), Submitted::Queued));
    let leftover = shut_down(guard);
    assert_eq!(leftover, vec![1]);

    let mut guard = init::<u64>(8, 4);
    let contexts: Vec<_> = (0..4).map(|i| setup_worker_thread(i, 4)).collect();
    assert!(matches!(submit(&mut guard.system, &contexts[3], 2), Submitted::Queued));
    match run_pending_job(&mut guard.system, &contexts[1]) {
        Dispatch::Run(job) => assert_eq!(job, 2),
        Dispatch::Yield => panic!("work was pending after the restart"),
    }
    assert!(shut_down(guard).is_empty());
}
