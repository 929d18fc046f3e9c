use crawler::ExtractError;

#[test]
fn navigation_error_overrides_result() {
    let e = ExtractError::Navigation("could not load target".to_string());
    assert!(e.overrides_result());
    assert_eq!(e.detail(), "could not load target");
}

#[test]
fn close_error_does_not_override_result() {
    let e = ExtractError::SessionClose("session already gone".to_string());
    assert!(!e.overrides_result());
    assert_eq!(e.detail(), "session already gone");
}
