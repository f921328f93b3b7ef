use rawprint::transfer::{run_transfer, OsResult, Request, Status, Transfer};

const LIMIT: usize = isize::MAX as usize;

#[test]
fn full_write_delivers_every_byte() {
    let buf = b"Hello, World!".to_vec();
    let script = vec![OsResult::Wrote(13)];
    let run = run_transfer(&buf, LIMIT, &script);
    assert_eq!(run.end, Status::Done);
    assert_eq!(run.received, buf);
    assert_eq!(run.requests, vec![Request { offset: 0, len: 13 }]);
}

#[test]
fn error_after_partial_write_leaves_a_prefix() {
    let buf = b"0123456789".to_vec();
    let script = vec![OsResult::Wrote(4), OsResult::Failed(5)];
    let run = run_transfer(&buf, LIMIT, &script);
    assert_eq!(run.end, Status::Failed(5));
    assert_eq!(run.received, b"0123".to_vec());
    assert_eq!(
        run.requests,
        vec![Request { offset: 0, len: 10 }, Request { offset: 4, len: 6 }]
    );
}

#[test]
fn empty_buffer_succeeds_without_any_write_call() {
    let buf = Vec::new();
    let script = vec![OsResult::Wrote(1)];
    let run = run_transfer(&buf, LIMIT, &script);
    assert_eq!(run.end, Status::Done);
    assert!(run.requests.is_empty());
    assert!(run.received.is_empty());
}

#[test]
fn error_on_first_attempt_confirms_nothing() {
    let buf = b"abc".to_vec();
    let script = vec![OsResult::Failed(9)];
    let run = run_transfer(&buf, LIMIT, &script);
    assert_eq!(run.end, Status::Failed(9));
    assert!(run.received.is_empty());
    assert_eq!(run.requests, vec![Request { offset: 0, len: 3 }]);
}

#[test]
fn partial_writes_each_target_the_unwritten_suffix() {
    let buf = b"abcdefghij".to_vec();
    let script = vec![OsResult::Wrote(5), OsResult::Wrote(3), OsResult::Wrote(2)];
    let run = run_transfer(&buf, LIMIT, &script);
    assert_eq!(run.end, Status::Done);
    assert_eq!(run.received, buf);
    assert_eq!(
        run.requests,
        vec![
            Request { offset: 0, len: 10 },
            Request { offset: 5, len: 5 },
            Request { offset: 8, len: 2 },
        ]
    );
}

#[test]
fn zero_bytes_written_counts_as_drained_success() {
    let buf = b"xyz".to_vec();
    let script = vec![OsResult::Wrote(0)];
    let run = run_transfer(&buf, LIMIT, &script);
    // success is reported even though nothing reached the stream: the
    // stream is considered drained and the caller cannot tell the
    // difference from full completion
    assert_eq!(run.end, Status::Done);
    assert!(run.received.is_empty());
    assert_eq!(run.requests, vec![Request { offset: 0, len: 3 }]);
}

#[test]
fn exhausted_answers_leave_the_transfer_pending() {
    let buf = b"ab".to_vec();
    let script = vec![OsResult::Wrote(1)];
    let run = run_transfer(&buf, LIMIT, &script);
    assert_eq!(run.end, Status::Pending);
    assert_eq!(run.received, b"a".to_vec());
    assert_eq!(run.requests, vec![Request { offset: 0, len: 2 }]);
}

#[test]
fn oversized_buffer_keeps_only_the_suffix_in_flight() {
    // a buffer longer than the transfer limit starts at the suffix of
    // `limit` bytes; the leading bytes are never part of the transfer
    let buf = b"01234".to_vec();
    let script = vec![OsResult::Wrote(3)];
    let run = run_transfer(&buf, 3, &script);
    assert_eq!(run.end, Status::Done);
    assert_eq!(run.received, b"234".to_vec());
    assert_eq!(run.requests, vec![Request { offset: 2, len: 3 }]);
}

#[test]
fn step_by_step_walk_of_one_transfer() {
    let mut t = Transfer::begin(4, LIMIT);
    assert!(!t.finished());
    assert_eq!(t.request(), Request { offset: 0, len: 4 });
    assert_eq!(t.apply(OsResult::Wrote(2)), Status::Pending);
    assert_eq!(t.request(), Request { offset: 2, len: 2 });
    assert_eq!(t.apply(OsResult::Failed(7)), Status::Failed(7));
}

#[test]
fn empty_transfer_is_finished_from_the_start() {
    let t = Transfer::begin(0, LIMIT);
    assert!(t.finished());
}

#[test]
fn counting_down_to_zero_finishes_the_transfer() {
    let mut t = Transfer::begin(3, LIMIT);
    assert_eq!(t.apply(OsResult::Wrote(1)), Status::Pending);
    assert_eq!(t.apply(OsResult::Wrote(2)), Status::Done);
    assert!(t.finished());
}
