//! The audit log: record formatting, rotation, and tailing.

use lai::audit::{render_record, AuditLog, AuditRecord, MAX_LOG_BYTES};

fn record(ts: u64, lang: &str, code: Option<i32>, timed_out: bool, out: &str, err: &str) -> AuditRecord {
    AuditRecord {
        timestamp: ts,
        language: lang.to_string(),
        exit_code: code,
        timed_out,
        cwd: None,
        stdout: out.to_string(),
        stderr: err.to_string(),
    }
}

#[test]
fn record_block_shape() {
    let r = AuditRecord {
        timestamp: 1700000000,
        language: "sh".to_string(),
        exit_code: Some(0),
        timed_out: false,
        cwd: Some("/tmp".to_string()),
        stdout: "ok\n".to_string(),
        stderr: "".to_string(),
    };
    let text = render_record(&r);
    assert_eq!(
        text,
        "1700000000 | lang=sh | exit=Some(0) | timed_out=false | cwd=Some(\"/tmp\")\nSTDOUT: ok\n\nSTDERR: \n---\n"
    );
}

#[test]
fn record_truncates_long_output() {
    let long: String = std::iter::repeat('x').take(1500).collect();
    let r = record(1, "sh", None, true, &long, "");
    let text = render_record(&r);
    assert!(text.contains("exit=None"));
    assert!(text.contains("timed_out=true"));
    assert!(text.contains("cwd=None"));
    let xs: String = std::iter::repeat('x').take(1000).collect();
    assert!(text.contains(&format!("STDOUT: {}...", xs)));
    assert!(!text.contains(&format!("{}x...", xs)));
}

#[test]
fn append_grows_current_until_the_threshold() {
    let mut log = AuditLog::new();
    let r = record(2, "sh", Some(0), false, "a", "");
    log.append(&r);
    log.append(&r);
    assert!(log.backup.is_none());
    assert_eq!(log.current, format!("{}{}", render_record(&r), render_record(&r)));
}

#[test]
fn test_audit_rotation_keeps_one_backup() {
    // a current file past the threshold rotates on the next append
    let mut log = AuditLog::new();
    let big: String = std::iter::repeat('y').take(MAX_LOG_BYTES + 1).collect();
    log.current = big.clone();
    log.backup = Some("older generation".to_string());

    let r = record(3, "python", Some(1), false, "out", "err");
    log.append(&r);

    // exactly one backup, holding the prior content; a fresh current file
    // holding only the new record
    assert_eq!(log.backup.as_deref(), Some(big.as_str()));
    assert_eq!(log.current, render_record(&r));

    // a second rotation overwrites the backup rather than appending to it
    let prior = log.current.clone();
    let big2: String = std::iter::repeat('z').take(MAX_LOG_BYTES + 1).collect();
    log.current = big2.clone();
    log.append(&r);
    assert_eq!(log.backup.as_deref(), Some(big2.as_str()));
    assert_ne!(log.backup.as_deref(), Some(format!("{}{}", big, prior).as_str()));
    assert_eq!(log.current, render_record(&r));
}

#[test]
fn explicit_rotate_moves_current_out() {
    let mut log = AuditLog::new();
    log.current = "some content".to_string();
    log.rotate();
    assert_eq!(log.backup.as_deref(), Some("some content"));
    assert_eq!(log.current, "");
}

#[test]
fn tail_returns_last_lines_of_current_only() {
    let mut log = AuditLog::new();
    log.current = "one\ntwo\nthree\nfour\n".to_string();
    log.backup = Some("old-one\nold-two\n".to_string());
    assert_eq!(log.tail(2), "three\nfour");
    assert_eq!(log.tail(10), "one\ntwo\nthree\nfour");
    assert_eq!(log.tail(0), "");
    let empty = AuditLog::new();
    assert_eq!(empty.tail(5), "");
}

#[test]
fn tail_handles_crlf_and_unterminated_last_line() {
    let mut log = AuditLog::new();
    log.current = "a\r\nb\nc".to_string();
    assert_eq!(log.tail(3), "a\nb\nc");
    assert_eq!(log.tail(1), "c");
}
