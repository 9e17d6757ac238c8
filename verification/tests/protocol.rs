//! Smoke tests of the request/response types shared between the server and
//! the filter.

use vaulty::api::ServerResult;
use vaulty::Error;

#[test]
fn test_request_response() {}

#[test]
fn main_test_request_response() {}

#[test]
fn server_result_ok_is_success() {
    let r = ServerResult::ok();
    assert!(r.success);
    assert!(r.message.is_none());
    assert!(r.storage_backend.is_none());
    assert!(r.num_attachments.is_none());
    assert!(r.error.is_none());
}

#[test]
fn server_result_failed_carries_error() {
    let r = ServerResult::failed(Error::InvalidRecipient);
    assert!(!r.success);
    assert!(matches!(r.error, Some(Error::InvalidRecipient)));
}

#[test]
fn welcome_message_text() {
    assert_eq!(vaulty::welcome_message(), "Welcome to Vaulty!");
}
