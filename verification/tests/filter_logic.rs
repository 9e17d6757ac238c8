//! The filter's decisions: response interpretation, the SMTP status and
//! exit-code mapping, reply construction, auth, and configuration.

use vaulty::api::ServerResult;
use vaulty::email::Email;
use vaulty::filter::{
    interpret_response, reply, reply_error, reply_success, smtp_code, FilterError, TEMPFAIL,
    UNAVAILABLE,
};
use vaulty::server::basic_auth;
use vaulty::db::LogLevel;
use vaulty::storage::Backend;
use vaulty::Error;

use base64::Engine;

fn failed_with(error: Error) -> ServerResult {
    ServerResult::failed(error)
}

#[test]
fn exit_codes_follow_the_error() {
    // A transient failure asks the MTA to retry, printing nothing.
    let (code, line) = reply_error(&FilterError::Temporary);
    assert_eq!(code, TEMPFAIL);
    assert_eq!(code, 75);
    assert!(line.is_none());

    // An unexpected failure bounces with a protocol error.
    let (code, line) = reply_error(&FilterError::Unexpected);
    assert_eq!(code, UNAVAILABLE);
    assert_eq!(code, 69);
    assert!(line.unwrap().starts_with("5.5.4: "));

    // Policy rejections bounce with their own enhanced status codes.
    let (code, line) = reply_error(&FilterError::Server(failed_with(Error::InvalidRecipient)));
    assert_eq!(code, 69);
    assert_eq!(
        line.as_deref(),
        Some("5.1.1: None of the recipients of this email are valid Vaulty addresses.")
    );

    let (code, line) =
        reply_error(&FilterError::Server(failed_with(Error::QuotaExceeded("over".to_string()))));
    assert_eq!(code, 69);
    assert_eq!(line.as_deref(), Some("5.2.3: over"));

    let (code, line) = reply_error(&FilterError::Server(failed_with(
        Error::SenderNotWhitelisted { recipient: "bob@vaulty.net".to_string() },
    )));
    assert_eq!(code, 69);
    assert_eq!(
        line.as_deref(),
        Some("5.7.1: The sender of this email is not on the whitelist for address bob@vaulty.net.")
    );

    let (code, _) = reply_error(&FilterError::Server(failed_with(Error::TokenExpired)));
    assert_eq!(code, 69);

    // A server failure carrying no error is treated as success.
    let (code, line) = reply_error(&FilterError::Server(ServerResult {
        success: false,
        message: None,
        storage_backend: None,
        num_attachments: None,
        error: None,
    }));
    assert_eq!(code, 0);
    assert!(line.is_none());
}

#[test]
fn smtp_codes() {
    assert_eq!(smtp_code(&Error::InvalidRecipient), "5.1.1");
    assert_eq!(smtp_code(&Error::QuotaExceeded("m".to_string())), "5.2.3");
    assert_eq!(
        smtp_code(&Error::SenderNotWhitelisted { recipient: "r".to_string() }),
        "5.7.1"
    );
    assert_eq!(smtp_code(&Error::TokenExpired), "5.7.8");
    assert_eq!(smtp_code(&Error::Unauthorized), "5.7.8");
    assert_eq!(smtp_code(&Error::Generic("m".to_string())), "5.2.0");
    assert_eq!(smtp_code(&Error::NotFound), "5.2.0");
}

#[test]
fn response_interpretation() {
    // An unreadable body means retrying later, whatever the status.
    assert!(matches!(interpret_response(200, None), Err(FilterError::Temporary)));
    assert!(matches!(interpret_response(200, Some(ServerResult::ok())), Ok(_)));
    // A policy rejection is permanent and carries the server's result.
    assert!(matches!(
        interpret_response(422, Some(failed_with(Error::InvalidRecipient))),
        Err(FilterError::Server(_))
    ));
    // Server errors, auth failures and route misses are transient: the MTA
    // re-queues the message.
    assert!(matches!(
        interpret_response(500, Some(failed_with(Error::Generic("x".to_string())))),
        Err(FilterError::Temporary)
    ));
    assert!(matches!(
        interpret_response(401, Some(failed_with(Error::Unauthorized))),
        Err(FilterError::Temporary)
    ));
    assert!(matches!(
        interpret_response(404, Some(failed_with(Error::NotFound))),
        Err(FilterError::Temporary)
    ));
}

#[test]
fn storage_timeout_response_requeues() {
    // A backend timeout surfaces as a 500 whose body names the storage
    // error; the filter must exit so that the MTA re-queues and retries.
    let response = failed_with(Error::Storage(vaulty::storage::Error::RequestTimeout));
    let outcome = match interpret_response(500, Some(response)) {
        Err(e) => e,
        Ok(_) => panic!("a server error must not read as success"),
    };
    assert!(matches!(outcome, FilterError::Temporary));
    let (code, line) = reply_error(&outcome);
    assert_eq!(code, TEMPFAIL);
    assert_eq!(code, 75);
    assert!(line.is_none());
}

#[test]
fn reply_threads_under_the_original() {
    let mut mail = Email::new().with_sender("alice@example.com".to_string());
    mail.subject = Some("hello".to_string());
    mail.message_id = Some("id-1@example.com".to_string());
    let rep = reply(&mail, "sorry".to_string()).unwrap();
    assert_eq!(rep.to, "alice@example.com");
    assert_eq!(rep.from, "noreply@vaulty.net");
    assert_eq!(rep.subject, "Re: hello");
    assert_eq!(rep.in_reply_to, "<id-1@example.com>");
    assert_eq!(rep.references, "<id-1@example.com>");
    assert_eq!(rep.text, "sorry");
}

#[test]
fn reply_without_message_id_is_skipped() {
    let mail = Email::new().with_sender("alice@example.com".to_string());
    assert!(reply(&mail, "sorry".to_string()).is_none());
}

#[test]
fn reply_without_subject_uses_fallback() {
    let mut mail = Email::new().with_sender("alice@example.com".to_string());
    mail.message_id = Some("id-2@example.com".to_string());
    let rep = reply(&mail, "x".to_string()).unwrap();
    assert_eq!(rep.subject, "Re: Mail processing failed");
}

#[test]
fn success_reply_reports_the_upload() {
    let mut mail = Email::new().with_sender("alice@example.com".to_string());
    mail.message_id = Some("id-3@example.com".to_string());
    let result = ServerResult {
        success: true,
        message: None,
        storage_backend: Some(Backend::Dropbox),
        num_attachments: Some(2),
        error: None,
    };
    let (rep, code) = reply_success(&mail, result);
    assert_eq!(code, 0);
    assert_eq!(
        rep.unwrap().text,
        "Vaulty successfully uploaded 2 attachments to Dropbox!"
    );
}

#[test]
fn basic_auth_accepts_the_encoded_pair() {
    let encoded = base64::engine::general_purpose::STANDARD.encode("admin:test123");
    let header = format!("Basic {}", encoded);
    assert!(basic_auth(&header, "admin", "test123").is_ok());
    assert!(matches!(
        basic_auth(&header, "admin", "other"),
        Err(Error::Unauthorized)
    ));
    assert!(matches!(basic_auth("", "admin", "test123"), Err(Error::Unauthorized)));
}

#[test]
fn http_statuses() {
    assert_eq!(Error::Unauthorized.http_status(), 401);
    assert_eq!(Error::MissingHeader("Authorization".to_string()).http_status(), 401);
    assert_eq!(Error::NotFound.http_status(), 404);
    assert_eq!(Error::InvalidRecipient.http_status(), 422);
    assert_eq!(Error::QuotaExceeded("m".to_string()).http_status(), 422);
    assert_eq!(Error::TokenExpired.http_status(), 422);
    assert_eq!(
        Error::SenderNotWhitelisted { recipient: "r".to_string() }.http_status(),
        422
    );
    assert_eq!(Error::Generic("m".to_string()).http_status(), 500);
    assert_eq!(Error::Database("m".to_string()).http_status(), 500);
    assert_eq!(
        Error::Storage(vaulty::storage::Error::RequestTimeout).http_status(),
        500
    );
}

#[test]
fn error_messages() {
    assert_eq!(
        Error::MissingHeader("Authorization".to_string()).message(),
        "This endpoint requires HTTP authorization."
    );
    assert_eq!(
        Error::MissingHeader("Content-Length".to_string()).message(),
        "The request is missing the following header(s): Content-Length"
    );
    assert_eq!(
        Error::Storage(vaulty::storage::Error::RequestTimeout).message(),
        "Storage error: RequestTimeout"
    );
}

#[test]
fn config_defaults_and_overrides() {
    let cfg = vaulty::config::Config::load(&Vec::new());
    assert_eq!(cfg.port, 7777);
    assert_eq!(cfg.max_email_size, 5 * 1024 * 1024);
    assert_eq!(cfg.max_attachment_size, 20 * 1024 * 1024);
    assert_eq!(cfg.auth_user, "admin");
    assert_eq!(cfg.auth_pass, "test123");
    assert_eq!(cfg.db_host, "127.0.0.1");
    assert_eq!(cfg.db_name, "vaulty");
    assert_eq!(cfg.db_user, "vaulty");
    assert!(cfg.mailgun_key.is_none());
    assert!(cfg.db_password.is_none());

    let settings = vec![
        ("port".to_string(), "8080".to_string()),
        ("auth_user".to_string(), "root".to_string()),
        ("max_email_size".to_string(), "1000".to_string()),
        ("port".to_string(), "9090".to_string()),
        ("db_password".to_string(), "SECRET-REDACTED".to_string()),
    ];
    let cfg = vaulty::config::Config::load(&settings);
    // Later settings override earlier ones.
    assert_eq!(cfg.port, 9090);
    assert_eq!(cfg.auth_user, "root");
    assert_eq!(cfg.max_email_size, 1000);
    assert_eq!(cfg.db_password.as_deref(), Some("SECRET-REDACTED"));

    // An unparseable number falls back to its default.
    let settings = vec![("port".to_string(), "eight".to_string())];
    assert_eq!(vaulty::config::Config::load(&settings).port, 7777);
}

#[test]
fn log_levels_round_trip() {
    assert_eq!(LogLevel::Debug.code(), 0);
    assert_eq!(LogLevel::Info.code(), 1);
    assert_eq!(LogLevel::Warning.code(), 2);
    assert_eq!(LogLevel::Error.code(), 3);
    assert!(matches!(LogLevel::from_code(2), LogLevel::Warning));
    assert!(matches!(LogLevel::from_code(42), LogLevel::Info));
}

#[test]
fn text_utilities() {
    assert_eq!(vaulty::text::u64_to_string(0), "0");
    assert_eq!(vaulty::text::u64_to_string(90210), "90210");
    assert_eq!(vaulty::text::parse_u64("12345"), Some(12345));
    assert_eq!(vaulty::text::parse_u64(""), None);
    assert_eq!(vaulty::text::parse_u64("12a"), None);
    assert_eq!(vaulty::text::parse_u64("18446744073709551615"), Some(u64::MAX));
    assert_eq!(vaulty::text::parse_u64("18446744073709551616"), None);
    assert!(vaulty::text::contains_str("hello world", "lo wo"));
    assert!(!vaulty::text::contains_str("hello", "world"));
    // Only the surrounding pair of angle brackets comes off.
    assert_eq!(vaulty::text::strip_angles("<id@x>"), "id@x");
    assert_eq!(vaulty::text::strip_angles("a<b>c"), "a<b>c");
    assert_eq!(vaulty::text::strip_angles("<a<b>>"), "a<b>");
    assert_eq!(vaulty::text::strip_angles("plain"), "plain");
    assert_eq!(vaulty::text::strip_angles(""), "");
    assert_eq!(vaulty::text::to_lowercase("Text/HTML"), "text/html");
    assert_eq!(vaulty::text::before_char("inline; name=x", ';'), "inline");
    assert_eq!(vaulty::text::before_char("attachment", ';'), "attachment");
}
