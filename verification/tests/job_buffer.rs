use ris_jobs::errors::BlockedOrFull;
use ris_jobs::job_buffer::JobBuffer;

#[test]
fn pop_returns_reverse_submission_order() {
    let mut buffer: JobBuffer<u64> = JobBuffer::new(8);
    for token in [1u64, 2, 3, 4, 5] {
        assert!(buffer.push(token).is_ok());
    }
    let mut popped = Vec::new();
    while let Ok(token) = buffer.wait_and_pop() {
        popped.push(token);
    }
    assert_eq!(popped, vec![5, 4, 3, 2, 1]);
}

#[test]
fn steal_returns_submission_order() {
    let mut buffer: JobBuffer<u64> = JobBuffer::new(8);
    for token in [1u64, 2, 3, 4, 5] {
        assert!(buffer.push(token).is_ok());
    }
    let mut stolen = Vec::new();
    while let Ok(token) = buffer.steal() {
        stolen.push(token);
    }
    assert_eq!(stolen, vec![1, 2, 3, 4, 5]);
}

#[test]
fn push_on_full_buffer_hands_the_job_back() {
    let mut buffer: JobBuffer<u64> = JobBuffer::new(2);
    assert!(buffer.push(10).is_ok());
    assert!(buffer.push(11).is_ok());
    match buffer.push(12) {
        Err(BlockedOrFull { not_pushed }) => assert_eq!(not_pushed, 12),
        Ok(()) => panic!("push on a full buffer must fail"),
    }
    assert_eq!(buffer.wait_and_pop().unwrap(), 11);
    assert!(buffer.push(12).is_ok());
    assert_eq!(buffer.wait_and_pop().unwrap(), 12);
}

#[test]
fn zero_capacity_buffer_rejects_every_push() {
    let mut buffer: JobBuffer<u64> = JobBuffer::new(0);
    match buffer.push(7) {
        Err(BlockedOrFull { not_pushed }) => assert_eq!(not_pushed, 7),
        Ok(()) => panic!("push on a zero-capacity buffer must fail"),
    }
    assert!(buffer.wait_and_pop().is_err());
    assert!(buffer.steal().is_err());
}

#[test]
fn ring_wraps_around_under_mixed_use() {
    let mut buffer: JobBuffer<u64> = JobBuffer::new(3);
    for round in 0..10u64 {
        assert!(buffer.push(round * 2).is_ok());
        assert!(buffer.push(round * 2 + 1).is_ok());
        assert_eq!(buffer.steal().unwrap(), round * 2);
        assert_eq!(buffer.wait_and_pop().unwrap(), round * 2 + 1);
    }
    assert!(buffer.wait_and_pop().is_err());
}

#[test]
fn mixed_ends_keep_order() {
    let mut buffer: JobBuffer<u64> = JobBuffer::new(4);
    assert!(buffer.push(1).is_ok());
    assert!(buffer.push(2).is_ok());
    assert!(buffer.push(3).is_ok());
    assert_eq!(buffer.steal().unwrap(), 1);
    assert_eq!(buffer.wait_and_pop().unwrap(), 3);
    assert!(buffer.push(4).is_ok());
    assert_eq!(buffer.steal().unwrap(), 2);
    assert_eq!(buffer.steal().unwrap(), 4);
    assert!(buffer.steal().is_err());
}

#[test]
fn drain_empties_in_pop_order() {
    let mut buffer: JobBuffer<u64> = JobBuffer::new(8);
    for token in [1u64, 2, 3] {
        assert!(buffer.push(token).is_ok());
    }
    let drained = buffer.drain();
    assert_eq!(drained, vec![3, 2, 1]);
    assert!(buffer.wait_and_pop().is_err());
}
