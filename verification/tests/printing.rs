use rawprint::transfer::{run_transfer, OsResult, Status};
use rawprint::{STDERR_HANDLE, STDOUT_HANDLE};

#[test]
fn it_works() {
    rawprint::print("Hello, World!");
    rawprint::eprint("oh no");
}

#[test]
fn println_plans_two_separate_writes_to_stdout() {
    let plan = rawprint::println("hi");
    assert_eq!(plan.len(), 2);
    assert_eq!(plan[0].handle, STDOUT_HANDLE);
    assert_eq!(plan[0].bytes, b"hi".to_vec());
    assert_eq!(plan[1].handle, STDOUT_HANDLE);
    assert_eq!(plan[1].bytes, vec![b'\n']);
}

#[test]
fn print_and_eprint_reach_their_own_streams_exactly() {
    // run every planned write against an always-willing stream and collect
    // what each stream received
    let mut stdout_bytes = Vec::new();
    let mut stderr_bytes = Vec::new();
    let mut calls = rawprint::print("Hello, World!");
    calls.extend(rawprint::eprint("oh no"));
    for call in calls {
        let script = vec![OsResult::Wrote(call.bytes.len())];
        let run = run_transfer(&call.bytes, isize::MAX as usize, &script);
        assert_eq!(run.end, Status::Done);
        if call.handle == STDOUT_HANDLE {
            stdout_bytes.extend(run.received);
        } else {
            assert_eq!(call.handle, STDERR_HANDLE);
            stderr_bytes.extend(run.received);
        }
    }
    assert_eq!(stdout_bytes, b"Hello, World!".to_vec());
    assert_eq!(stderr_bytes, b"oh no".to_vec());
}

#[test]
fn print_adds_no_newline() {
    let plan = rawprint::print("x");
    assert_eq!(plan.len(), 1);
    assert_eq!(plan[0].bytes, b"x".to_vec());
}

#[test]
fn eprint_adds_no_newline() {
    let plan = rawprint::eprint("x");
    assert_eq!(plan.len(), 1);
    assert_eq!(plan[0].handle, STDERR_HANDLE);
    assert_eq!(plan[0].bytes, b"x".to_vec());
}

#[test]
fn eprintln_sends_its_newline_to_stdout_not_stderr() {
    // regression pin for the stream mismatch: the text goes to standard
    // error, the trailing newline to standard output
    let plan = rawprint::eprintln("boom");
    assert_eq!(plan.len(), 2);
    assert_eq!(plan[0].handle, STDERR_HANDLE);
    assert_eq!(plan[0].bytes, b"boom".to_vec());
    assert_eq!(plan[1].handle, STDOUT_HANDLE);
    assert_eq!(plan[1].bytes, vec![b'\n']);
}

#[test]
fn multibyte_text_is_planned_as_its_utf8_bytes() {
    let plan = rawprint::print("h\u{e9}llo");
    assert_eq!(plan.len(), 1);
    assert_eq!(plan[0].bytes, "h\u{e9}llo".as_bytes().to_vec());
    assert_eq!(plan[0].bytes.len(), 6);
}
