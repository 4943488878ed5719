use hoststate::executor::{
    classify_broker_exit, classify_broker_kind, command_capture_result, i32_to_string,
    probe_capture_result, spawn_failure_result, BrokerOutcomeKind,
};
use hoststate::model::CommandResult;

#[test]
fn decimal_rendering() {
    assert_eq!(i32_to_string(0), "0");
    assert_eq!(i32_to_string(7), "7");
    assert_eq!(i32_to_string(127), "127");
    assert_eq!(i32_to_string(-1), "-1");
    assert_eq!(i32_to_string(2147483647), "2147483647");
    assert_eq!(i32_to_string(-2147483648), "-2147483648");
}

#[test]
fn broker_success_returns_combined_output() {
    let r = classify_broker_exit(Some(0), "done", "warn");
    assert!(r.success);
    assert_eq!(r.message, "done\nwarn");
}

#[test]
fn broker_exit_127_with_denial_phrase_is_permission_denied() {
    let r = classify_broker_exit(Some(127), "", "not authorized");
    assert!(!r.success);
    assert_eq!(r.message, "Root permission denied or cancelled by user. (Exit Code: 127)");
    assert_eq!(classify_broker_kind(Some(127), "not authorized"), BrokerOutcomeKind::AuthDenied);
}

#[test]
fn broker_exit_127_alone_is_permission_denied() {
    assert_eq!(classify_broker_kind(Some(127), ""), BrokerOutcomeKind::AuthDenied);
}

#[test]
fn broker_denial_phrase_alone_is_permission_denied() {
    let r = classify_broker_exit(Some(1), "", "polkit: authentication failed for user");
    assert!(!r.success);
    assert_eq!(r.message, "Root permission denied or cancelled by user. (Exit Code: 1)");
}

#[test]
fn broker_other_failure_is_generic_with_code_and_output() {
    let r = classify_broker_exit(Some(2), "partial", "oops");
    assert!(!r.success);
    assert_eq!(r.message, "Elevated command failed (Exit Code: 2). Output: partial\noops");
    assert_eq!(classify_broker_kind(Some(2), "oops"), BrokerOutcomeKind::CommandFailed);
}

#[test]
fn broker_signal_exit_uses_placeholder_code() {
    let r = classify_broker_exit(None, "", "");
    assert!(!r.success);
    assert_eq!(r.message, "Elevated command failed (Exit Code: -1). Output: \n");
}

#[test]
fn spawn_failure_is_its_own_class() {
    let r = spawn_failure_result("No such file or directory (os error 2)");
    assert!(!r.success);
    assert_eq!(
        r.message,
        "Failed to spawn pkexec process: No such file or directory (os error 2)"
    );
}

#[test]
fn command_capture_shapes_both_sides() {
    let ok = command_capture_result("pacman", true, "  result  \n", "").unwrap();
    assert_eq!(ok, "result");
    let err = command_capture_result("pacman", false, "", "broken db").unwrap_err();
    assert_eq!(err, "Command failed: pacman broken db");
}

#[test]
fn probe_capture_trims_both_sides() {
    assert_eq!(probe_capture_result(true, " C.utf8 \n", "").unwrap(), "C.utf8");
    assert_eq!(probe_capture_result(false, "", " denied \n").unwrap_err(), "denied");
}

#[test]
fn command_result_constructors() {
    let a = CommandResult::ok("fine".to_string());
    assert!(a.success);
    assert_eq!(a.message, "fine");
    let b = CommandResult::error("bad".to_string());
    assert!(!b.success);
    assert_eq!(b.message, "bad");
}
