//! The failure classifier: the recognized signals, their exact sentences,
//! and the fallback.

use lai::classify::analyze_error_output;

#[test]
fn test_analyze_error_output() {
    let stderr = "bash: nonexistent-command: command not found";
    let stdout = "";
    let exit_code = Some(127);

    let analysis = analyze_error_output(stderr, stdout, exit_code);
    assert!(analysis.contains("Process exited with code 127"));
    assert!(analysis.contains("Command or file not found"));
}

#[test]
fn classifier_is_deterministic() {
    let a = analyze_error_output("bash: foo: command not found", "", Some(127));
    let b = analyze_error_output("bash: foo: command not found", "", Some(127));
    assert_eq!(a, b);
    assert!(a.contains("Process exited with code 127"));
    assert!(a.contains("not found"));
}

#[test]
fn clean_output_yields_only_the_fallback() {
    let analysis = analyze_error_output("", "ok", Some(0));
    assert_eq!(analysis, "Command completed but may have issues");
}

#[test]
fn exact_join_of_code_and_stderr_signal() {
    let analysis = analyze_error_output("Permission denied (publickey)", "", Some(1));
    assert_eq!(
        analysis,
        "Process exited with code 1; Error output detected; \
         Permission issue - try with sudo or check file permissions"
    );
}

#[test]
fn connection_refused_needs_both_words() {
    let both = analyze_error_output("connection to host refused", "", Some(1));
    assert!(both.contains("Connection refused - check if service is running"));

    let only_one = analyze_error_output("connection reset by peer", "", Some(1));
    assert!(!only_one.contains("Connection refused"));
}

#[test]
fn memory_signals() {
    let a = analyze_error_output("OOM killer invoked", "", Some(137));
    assert!(a.contains("Memory issue"));
    let b = analyze_error_output("process ran out of memory", "", None);
    assert!(b.contains("Memory issue"));
}

#[test]
fn negative_exit_code_is_reported() {
    let a = analyze_error_output("", "", Some(-1));
    assert_eq!(a, "Process exited with code -1");
}

#[test]
fn stderr_without_signal_gets_generic_note() {
    let a = analyze_error_output("something odd happened", "", Some(0));
    assert_eq!(a, "Error output detected");
}
