use learning_rust::status::{check_status, is_transient_status, StatusError};

#[test]
fn success_range_is_2xx() {
    assert!(check_status(200).is_ok());
    assert!(check_status(204).is_ok());
    assert!(check_status(299).is_ok());
    assert!(check_status(199).is_err());
    assert!(check_status(300).is_err());
    assert!(check_status(0).is_err());
    assert!(check_status(u16::MAX).is_err());
}

#[test]
fn not_found_is_rejected_with_its_code() {
    assert_eq!(check_status(404), Err(StatusError { code: 404 }));
}

#[test]
fn service_unavailable_is_rejected_with_its_code() {
    assert_eq!(check_status(503), Err(StatusError { code: 503 }));
}

#[test]
fn ok_status_is_accepted() {
    assert_eq!(check_status(200), Ok(()));
}

#[test]
fn only_5xx_is_transient() {
    assert!(is_transient_status(500));
    assert!(is_transient_status(503));
    assert!(is_transient_status(599));
    assert!(!is_transient_status(499));
    assert!(!is_transient_status(404));
    assert!(!is_transient_status(600));
    assert!(!is_transient_status(200));
}
