//! The process runner's decisions: splitting, the whitelist, the timeout
//! rule, and the result records.

use lai::json::JsonScalar;
use lai::runner::{
    build_execution_result, build_run_result, execution_result_to_json, parse_command,
    plan_run_code, poll_decision, split_command, ChildPoll, PollStep, RunOutcome,
    DEFAULT_RUN_TIMEOUT_MS, POLL_INTERVAL_MS,
};

#[test]
fn test_run_code_unsupported_language() {
    let r = plan_run_code(&"ruby".to_string(), Some(2000));
    assert!(r.is_err());
    match r {
        Err(e) => assert!(e.contains("Unsupported language")),
        Ok(_) => unreachable!(),
    }
}

#[test]
fn plan_fixes_interpreter_suffix_and_timeout() {
    let p = plan_run_code(&"Python".to_string(), None).expect("supported");
    assert_eq!(p.interpreter, "python3");
    assert_eq!(p.suffix, ".py");
    assert_eq!(p.timeout_ms, DEFAULT_RUN_TIMEOUT_MS);

    let js = plan_run_code(&"javascript".to_string(), Some(500)).expect("supported");
    assert_eq!(js.interpreter, "node");
    assert_eq!(js.suffix, ".js");
    assert_eq!(js.timeout_ms, 500);

    let sh = plan_run_code(&"ZSH".to_string(), Some(1)).expect("supported");
    assert_eq!(sh.interpreter, "sh");
    assert_eq!(sh.suffix, ".sh");
}

#[test]
fn split_command_on_blanks() {
    let parts = split_command("echo hello  world\t!");
    assert_eq!(parts, vec!["echo", "hello", "world", "!"]);
    assert!(split_command("   ").is_empty());
}

#[test]
fn empty_command_is_refused() {
    match parse_command("") {
        Err(e) => assert_eq!(e, "Empty command"),
        Ok(_) => panic!("empty command must be refused"),
    }
    match parse_command(" \t ") {
        Err(e) => assert_eq!(e, "Empty command"),
        Ok(_) => panic!("blank command must be refused"),
    }
    assert_eq!(parse_command("ls -la").unwrap(), vec!["ls", "-la"]);
}

#[test]
fn timeout_rule_never_waits_past_the_deadline() {
    // a sleep longer than the timeout: every poll shows Running, and once
    // the clock reaches the deadline the decision is to kill
    assert!(matches!(
        poll_decision(0, 500, &ChildPoll::Running),
        PollStep::Wait
    ));
    assert!(matches!(
        poll_decision(499, 500, &ChildPoll::Running),
        PollStep::Wait
    ));
    assert!(matches!(
        poll_decision(500, 500, &ChildPoll::Running),
        PollStep::Kill
    ));
    assert!(matches!(
        poll_decision(500 + POLL_INTERVAL_MS, 500, &ChildPoll::Running),
        PollStep::Kill
    ));
    assert!(matches!(
        poll_decision(10_000, 500, &ChildPoll::Exited(Some(0))),
        PollStep::Finish(Some(0))
    ));
}

#[test]
fn timed_out_run_has_no_exit_code() {
    let r = build_run_result("partial".to_string(), "".to_string(), &RunOutcome::TimedOut);
    assert!(r.timed_out);
    assert_eq!(r.exit_code, None);
    assert_eq!(r.stdout, "partial");
}

#[test]
fn completed_run_keeps_its_code() {
    let r = build_run_result("out".to_string(), "err".to_string(), &RunOutcome::Completed(Some(3)));
    assert!(!r.timed_out);
    assert_eq!(r.exit_code, Some(3));
}

#[test]
fn echo_hello_capture_shape() {
    let r = build_execution_result(
        "echo hello".to_string(),
        "/tmp".to_string(),
        &RunOutcome::Completed(Some(0)),
        "hello\n".to_string(),
        "".to_string(),
        12,
    );
    assert_eq!(r.command, "echo hello");
    assert_eq!(r.exit_code, Some(0));
    assert!(r.stdout.contains("hello"));
    assert!(!r.timed_out);
    assert!(r.error_summary.is_none());
}

#[test]
fn failed_capture_carries_a_summary() {
    let r = build_execution_result(
        "false".to_string(),
        ".".to_string(),
        &RunOutcome::Completed(Some(1)),
        "".to_string(),
        "".to_string(),
        1,
    );
    assert_eq!(r.error_summary.as_deref(), Some("Process exited with code 1"));

    let t = build_execution_result(
        "sleep 10".to_string(),
        ".".to_string(),
        &RunOutcome::TimedOut,
        "".to_string(),
        "".to_string(),
        550,
    );
    assert!(t.timed_out);
    assert_eq!(t.exit_code, None);
    assert!(t.error_summary.is_some());
}

#[test]
fn test_capture_result_serialization() {
    let result = build_execution_result(
        "echo test".to_string(),
        "/tmp".to_string(),
        &RunOutcome::Completed(Some(0)),
        "test\n".to_string(),
        "".to_string(),
        100,
    );

    let o = execution_result_to_json(&result);
    let mut chars: Vec<char> = Vec::new();
    lai::json::emit_object(&mut chars, &o);
    let json = lai::text::chars_to_string(&chars);
    assert!(json.contains("echo test"));
    assert!(json.contains("\"exit_code\":0"));
    assert!(json.contains("\"timed_out\":false"));
}

#[test]
fn signal_death_is_completed_without_code() {
    let r = build_run_result("".to_string(), "".to_string(), &RunOutcome::Completed(None));
    assert!(!r.timed_out);
    assert_eq!(r.exit_code, None);
    let _ = JsonScalar::Null;
}
