use symlink_manager::probe::{interpret_probe, ProbeOutcome};

#[test]
fn successful_probe_reports_capable() {
    let status = interpret_probe(ProbeOutcome::Success, false);
    assert!(status.can_create_symlinks);
    assert!(!status.requires_elevation);
    assert!(!status.is_developer_mode);
    assert_eq!(status.error_message, None);
}

#[test]
fn probe_passes_policy_reading_through() {
    let status = interpret_probe(ProbeOutcome::Success, true);
    assert!(status.can_create_symlinks);
    assert!(status.is_developer_mode);
}

#[test]
fn privilege_denied_probe_asks_for_elevation() {
    let status = interpret_probe(
        ProbeOutcome::Failure { raw_code: Some(1314), message: "os error 1314".to_string() },
        false,
    );
    assert!(!status.can_create_symlinks);
    assert!(status.requires_elevation);
    let message = status.error_message.unwrap();
    assert!(message.starts_with("Permission denied"));
}

#[test]
fn other_probe_failure_keeps_its_message() {
    let status = interpret_probe(
        ProbeOutcome::Failure { raw_code: Some(5), message: "Access is denied".to_string() },
        true,
    );
    assert!(!status.can_create_symlinks);
    assert!(!status.requires_elevation);
    assert!(status.is_developer_mode);
    assert_eq!(status.error_message.as_deref(), Some("Access is denied"));
}
