use catalog_scan::handles::EngineHandles;
use catalog_scan::error::ScanError;
use catalog_scan::status::StatusOutcome;

#[test]
fn open_and_close_in_order() {
    let mut h = EngineHandles::new();
    assert!(h.open_env(0).is_ok());
    assert!(h.open_session(0).is_ok());
    assert!(h.open_cursor(0).is_ok());
    assert!(h.env_open && h.session_open && h.cursor_open);
    assert!(h.close_cursor().is_ok());
    assert!(h.close_session().is_ok());
    assert!(h.close_env().is_ok());
    assert!(!h.env_open && !h.session_open && !h.cursor_open);
}

#[test]
fn engine_open_failure_is_typed() {
    let mut h = EngineHandles::new();
    let e = h.open_env(2).unwrap_err();
    assert_eq!(e, ScanError::EngineOpenFailed(2));
    assert!(!h.env_open);
}

#[test]
fn cursor_open_failure_is_typed() {
    let mut h = EngineHandles::new();
    assert!(h.open_env(0).is_ok());
    assert!(h.open_session(0).is_ok());
    let e = h.open_cursor(-31802).unwrap_err();
    assert_eq!(e, ScanError::CursorOpenFailed(-31802));
    assert!(!h.cursor_open);
}

#[test]
fn session_open_failure_carries_its_category() {
    let mut h = EngineHandles::new();
    assert!(h.open_env(0).is_ok());
    let e = h.open_session(-31806).unwrap_err();
    assert_eq!(e, ScanError::OperationFailed(StatusOutcome::Fatal));
}

#[test]
fn out_of_order_close_is_rejected() {
    let mut h = EngineHandles::new();
    assert!(h.open_env(0).is_ok());
    assert!(h.open_session(0).is_ok());
    assert!(h.open_cursor(0).is_ok());
    // The session cannot close under a live cursor, nor the environment
    // under a live session.
    assert_eq!(h.close_session().unwrap_err(), ScanError::ContractViolation);
    assert_eq!(h.close_env().unwrap_err(), ScanError::ContractViolation);
    assert!(h.cursor_open && h.session_open && h.env_open);
}

#[test]
fn double_open_is_rejected() {
    let mut h = EngineHandles::new();
    assert!(h.open_env(0).is_ok());
    assert_eq!(h.open_env(0).unwrap_err(), ScanError::ContractViolation);
    assert!(h.open_session(0).is_ok());
    assert_eq!(h.open_session(0).unwrap_err(), ScanError::ContractViolation);
}

#[test]
fn session_needs_an_environment() {
    let mut h = EngineHandles::new();
    assert_eq!(h.open_session(0).unwrap_err(), ScanError::ContractViolation);
    assert_eq!(h.open_cursor(0).unwrap_err(), ScanError::ContractViolation);
}

#[test]
fn close_all_releases_everything_in_order() {
    let mut h = EngineHandles::new();
    assert!(h.open_env(0).is_ok());
    assert!(h.open_session(0).is_ok());
    assert!(h.open_cursor(0).is_ok());
    h.close_all();
    assert!(!h.env_open && !h.session_open && !h.cursor_open);

    // From a partially open state too.
    let mut h = EngineHandles::new();
    assert!(h.open_env(0).is_ok());
    h.close_all();
    assert!(!h.env_open);
}
