//! End-to-end scenarios over the server's policy state machine: the happy
//! path, rejections, quota gates, idempotent retries, and a storage-backend
//! timeout.

use vaulty::api::ServerResult;
use vaulty::cache::Cache;
use vaulty::db::{Address, Store};
use vaulty::email::Email;
use vaulty::server::{
    attachment_begin, attachment_finish, handle_email, AttachmentRequest, AttachmentStep,
};
use vaulty::storage::Backend;
use vaulty::Error;

fn bob_address() -> Address {
    Address {
        address: "bob@vaulty.net".to_string(),
        user_id: 1,
        email_quota: 100,
        num_received: 3,
        max_email_size: 5_000_000,
        storage_quota: 1_000_000_000,
        storage_used: 5_000,
        storage_token: "SECRET-REDACTED".to_string(),
        storage_backend: Backend::Dropbox,
        storage_path: "/user/path".to_string(),
        last_renewal_time: 1_700_000_000,
        whitelist: Vec::new(),
        is_whitelist_enabled: false,
        is_active: true,
    }
}

fn store_with(address: Address) -> Store {
    Store {
        addresses: vec![address],
        mail: Vec::new(),
        logs: Vec::new(),
    }
}

fn message(sender: &str, recipients: &[&str], num_attachments: u16, body: &str, size: usize) -> Email {
    let recipients: Vec<String> = recipients.iter().map(|r| r.to_string()).collect();
    let mut mail = Email::new()
        .with_sender(sender.to_string())
        .with_recipients(recipients);
    mail.body = body.to_string();
    mail.size = size;
    mail.num_attachments = num_attachments;
    mail.uuid = "db6377b6-e9c2-5eb0-a4f7-b2ab8bc66042".to_string();
    mail.subject = Some("hello".to_string());
    mail.message_id = Some("id-1@example.com".to_string());
    mail
}

fn http_status(r: &Result<ServerResult, Error>) -> u16 {
    match r {
        Ok(_) => 200,
        Err(e) => e.http_status(),
    }
}

#[test]
fn happy_path_one_attachment() {
    let mut store = store_with(bob_address());
    let mut cache = Cache::new();
    let mail = message("alice@example.com", &["bob@vaulty.net"], 1, "hello body", 2_048);

    let r = handle_email(&mut store, &mut cache, &mail, 10);
    assert_eq!(http_status(&r), 200);
    assert!(cache.contains(&mail.uuid));
    // The body bytes are charged and the message counted at acceptance.
    assert_eq!(store.addresses[0].storage_used, 5_000 + "hello body".len() as i64);
    assert_eq!(store.addresses[0].num_received, 4);
    assert_eq!(store.mail.len(), 1);
    assert!(store.mail[0].status);

    let req = AttachmentRequest {
        mail_id: mail.uuid.clone(),
        name: "pic.png".to_string(),
        index: 0,
        size: 1_024,
    };
    let step = attachment_begin(&mut store, &cache, &req).unwrap();
    let cmd = match step {
        AttachmentStep::Upload(cmd) => cmd,
        AttachmentStep::AlreadyProcessed(_) => panic!("fresh index must be uploaded"),
    };
    // The backend sees exactly the configured path and the request's bytes.
    assert_eq!(cmd.upload_path.as_deref(), Some("/user/path/pic.png"));
    assert!(matches!(cmd.backend, Backend::Dropbox));
    assert_eq!(cmd.token, "SECRET-REDACTED");

    let r = attachment_finish(&mut store, &mut cache, &req, Ok(()), 20);
    let res = r.unwrap();
    assert!(res.success);
    // Terminal attachment: session evicted, full result reported.
    assert!(!cache.contains(&mail.uuid));
    assert!(matches!(res.storage_backend, Some(Backend::Dropbox)));
    assert_eq!(res.num_attachments, Some(1));
    assert_eq!(
        store.addresses[0].storage_used,
        5_000 + "hello body".len() as i64 + 1_024
    );
    assert_eq!(store.addresses[0].num_received, 4);
    assert_eq!(cache.num_processed, 1);
    assert_eq!(cache.avg_processing_time, 10);
}

#[test]
fn resolution_follows_recipient_order() {
    // Two candidates both have rows; the table lists them in the opposite
    // order. The first candidate of the message wins.
    let mut carol = bob_address();
    carol.address = "carol@vaulty.net".to_string();
    carol.storage_path = "/carol".to_string();
    let mut store = store_with(carol);
    store.addresses.push(bob_address());
    let mut cache = Cache::new();
    let mail = message(
        "alice@example.com",
        &["bob@vaulty.net", "carol@vaulty.net"],
        1,
        "hi",
        64,
    );
    handle_email(&mut store, &mut cache, &mail, 0).unwrap();
    // The session was resolved to the first candidate, not the first row.
    let entry = cache.get(&mail.uuid).unwrap();
    assert_eq!(entry.address.address, "bob@vaulty.net");
    assert_eq!(entry.email.recipients, vec!["bob@vaulty.net".to_string()]);
    assert_eq!(store.mail[0].address, "bob@vaulty.net");
}

#[test]
fn invalid_recipient_rejected() {
    let mut store = store_with(bob_address());
    let mut cache = Cache::new();
    let mail = message("alice@example.com", &["nobody@vaulty.net"], 1, "b", 10);

    let r = handle_email(&mut store, &mut cache, &mail, 0);
    assert!(matches!(r, Err(Error::InvalidRecipient)));
    assert_eq!(http_status(&r), 422);
    // No row, no session, no counters.
    assert!(store.mail.is_empty());
    assert!(!cache.contains(&mail.uuid));
    assert_eq!(store.addresses[0].num_received, 3);
    assert_eq!(store.logs.len(), 1);
}

#[test]
fn sender_not_whitelisted_rejected() {
    let mut address = bob_address();
    address.is_whitelist_enabled = true;
    address.whitelist = vec!["carol@example.com".to_string()];
    let mut store = store_with(address);
    let mut cache = Cache::new();
    let mail = message("eve@example.com", &["bob@vaulty.net"], 1, "b", 10);

    let r = handle_email(&mut store, &mut cache, &mail, 0);
    match &r {
        Err(Error::SenderNotWhitelisted { recipient }) => {
            assert_eq!(recipient, "bob@vaulty.net");
        }
        other => panic!("expected a whitelist rejection, got {:?}", other.is_ok()),
    }
    assert_eq!(http_status(&r), 422);
    // No mail row beyond the audit log entry; no upload possible.
    assert!(store.mail.is_empty());
    assert_eq!(store.logs.len(), 1);
    assert!(!cache.contains(&mail.uuid));
    assert_eq!(store.addresses[0].storage_used, 5_000);
}

#[test]
fn whitelisted_sender_accepted() {
    let mut address = bob_address();
    address.is_whitelist_enabled = true;
    address.whitelist = vec!["carol@example.com".to_string()];
    let mut store = store_with(address);
    let mut cache = Cache::new();
    let mail = message("carol@example.com", &["bob@vaulty.net"], 0, "b", 10);

    let r = handle_email(&mut store, &mut cache, &mail, 0);
    assert!(r.is_ok());
    assert_eq!(store.mail.len(), 1);
    // Without attachments there is nothing to track: no session.
    assert!(!cache.contains(&mail.uuid));
}

#[test]
fn email_too_large_rejected() {
    let mut store = store_with(bob_address());
    let mut cache = Cache::new();
    let mail = message("alice@example.com", &["bob@vaulty.net"], 0, "b", 5_000_001);

    let r = handle_email(&mut store, &mut cache, &mail, 0);
    match &r {
        Err(Error::QuotaExceeded(m)) => {
            assert_eq!(
                m,
                "This email is larger than allowed for bob@vaulty.net: the maximum email size is 5 MB."
            );
        }
        _ => panic!("expected a quota rejection"),
    }
    // The row is recorded as failed and nothing is charged.
    assert_eq!(store.mail.len(), 1);
    assert!(!store.mail[0].status);
    assert_eq!(store.addresses[0].storage_used, 5_000);
    assert_eq!(store.addresses[0].num_received, 3);
}

#[test]
fn message_quota_rejected() {
    let mut address = bob_address();
    address.num_received = 100;
    let mut store = store_with(address);
    let mut cache = Cache::new();
    let mail = message("alice@example.com", &["bob@vaulty.net"], 0, "b", 10);

    let r = handle_email(&mut store, &mut cache, &mail, 0);
    match &r {
        Err(Error::QuotaExceeded(m)) => {
            assert_eq!(m, "Address bob@vaulty.net has hit its quota of 100 emails for this period.");
        }
        _ => panic!("expected a quota rejection"),
    }
    assert_eq!(store.addresses[0].num_received, 100);
}

#[test]
fn quota_exceeded_mid_attachment() {
    // The body fits within the storage quota, the attachment does not.
    let mut address = bob_address();
    address.storage_quota = 5_200;
    let mut store = store_with(address);
    let mut cache = Cache::new();
    let mail = message("alice@example.com", &["bob@vaulty.net"], 1, "tiny", 100);

    let r = handle_email(&mut store, &mut cache, &mail, 0);
    assert_eq!(http_status(&r), 200);
    let used_after_body = 5_000 + "tiny".len() as i64;
    assert_eq!(store.addresses[0].storage_used, used_after_body);

    let req = AttachmentRequest {
        mail_id: mail.uuid.clone(),
        name: "big.bin".to_string(),
        index: 0,
        size: 10_000,
    };
    let r = attachment_begin(&mut store, &cache, &req);
    match &r {
        Err(Error::QuotaExceeded(m)) => {
            assert_eq!(m, "Address bob@vaulty.net has hit its quota of 0 MB for this period.");
            assert_eq!(Error::QuotaExceeded(m.clone()).http_status(), 422);
        }
        _ => panic!("expected a quota rejection"),
    }
    // The message is marked failed; only the body increment stands.
    assert!(!store.mail[0].status);
    assert_eq!(store.addresses[0].storage_used, used_after_body);
}

#[test]
fn idempotent_email_retry() {
    let mut store = store_with(bob_address());
    let mut cache = Cache::new();
    let mail = message("alice@example.com", &["bob@vaulty.net"], 1, "hello body", 2_048);

    let r1 = handle_email(&mut store, &mut cache, &mail, 0);
    assert!(r1.is_ok());
    let used = store.addresses[0].storage_used;
    let received = store.addresses[0].num_received;
    let rows = store.mail.len();

    // The identical re-POST succeeds without any further side effect.
    let r2 = handle_email(&mut store, &mut cache, &mail, 5);
    assert!(r2.is_ok());
    assert_eq!(store.addresses[0].storage_used, used);
    assert_eq!(store.addresses[0].num_received, received);
    assert_eq!(store.mail.len(), rows);
}

#[test]
fn idempotent_attachment_retry() {
    let mut store = store_with(bob_address());
    let mut cache = Cache::new();
    let mail = message("alice@example.com", &["bob@vaulty.net"], 2, "hello body", 2_048);
    handle_email(&mut store, &mut cache, &mail, 0).unwrap();

    let req = AttachmentRequest {
        mail_id: mail.uuid.clone(),
        name: "a.bin".to_string(),
        index: 0,
        size: 10,
    };
    match attachment_begin(&mut store, &cache, &req).unwrap() {
        AttachmentStep::Upload(_) => {}
        AttachmentStep::AlreadyProcessed(_) => panic!("first upload must proceed"),
    }
    let res = attachment_finish(&mut store, &mut cache, &req, Ok(()), 1).unwrap();
    // One of two attachments done: not terminal, so no final report yet.
    assert!(res.success);
    assert!(res.storage_backend.is_none());
    assert!(res.num_attachments.is_none());
    let used = store.addresses[0].storage_used;

    // The same index again: acknowledged without a second upload or charge.
    let step = attachment_begin(&mut store, &cache, &req).unwrap();
    match step {
        AttachmentStep::AlreadyProcessed(res) => {
            assert!(res.success);
            assert_eq!(
                res.message.as_deref(),
                Some("Attachment 0 has already been processed for email db6377b6-e9c2-5eb0-a4f7-b2ab8bc66042")
            );
        }
        AttachmentStep::Upload(_) => panic!("the index was already processed"),
    }
    assert_eq!(store.addresses[0].storage_used, used);
    // The session stays until the terminal attachment.
    assert!(cache.contains(&mail.uuid));
}

#[test]
fn attachment_without_session_is_internal_error() {
    let mut store = store_with(bob_address());
    let cache = Cache::new();
    let req = AttachmentRequest {
        mail_id: "no-such-id".to_string(),
        name: "a.bin".to_string(),
        index: 0,
        size: 10,
    };
    let r = attachment_begin(&mut store, &cache, &req);
    match &r {
        Err(Error::Generic(m)) => {
            assert_eq!(m, "No entry found for one of the attachments (mail_id: no-such-id)");
            assert_eq!(Error::Generic(m.clone()).http_status(), 500);
        }
        _ => panic!("expected an internal error"),
    }
}

#[test]
fn storage_backend_timeout_keeps_session() {
    let mut store = store_with(bob_address());
    let mut cache = Cache::new();
    let mail = message("alice@example.com", &["bob@vaulty.net"], 1, "hello body", 2_048);
    handle_email(&mut store, &mut cache, &mail, 0).unwrap();
    let used = store.addresses[0].storage_used;

    let req = AttachmentRequest {
        mail_id: mail.uuid.clone(),
        name: "pic.png".to_string(),
        index: 0,
        size: 1_024,
    };
    attachment_begin(&mut store, &mut cache, &req).unwrap();
    let r = attachment_finish(
        &mut store,
        &mut cache,
        &req,
        Err(vaulty::storage::Error::RequestTimeout),
        9,
    );
    match &r {
        Err(Error::Storage(vaulty::storage::Error::RequestTimeout)) => {}
        _ => panic!("expected a storage timeout"),
    }
    assert_eq!(http_status(&r), 500);
    // Message failed; nothing charged; the session survives so an MTA
    // redelivery retries the upload.
    assert!(!store.mail[0].status);
    assert_eq!(store.mail[0].error_msg, "Storage error: RequestTimeout");
    assert_eq!(store.addresses[0].storage_used, used);
    assert!(cache.contains(&mail.uuid));
    let entry = cache.get(&mail.uuid).unwrap();
    assert!(entry.attachments_processed.is_empty());
}

#[test]
fn expired_token_maps_to_user_error() {
    let mut store = store_with(bob_address());
    let mut cache = Cache::new();
    let mail = message("alice@example.com", &["bob@vaulty.net"], 1, "hello body", 2_048);
    handle_email(&mut store, &mut cache, &mail, 0).unwrap();
    let req = AttachmentRequest {
        mail_id: mail.uuid.clone(),
        name: "pic.png".to_string(),
        index: 0,
        size: 16,
    };
    let r = attachment_finish(
        &mut store,
        &mut cache,
        &req,
        Err(vaulty::storage::Error::TokenExpired("403".to_string())),
        3,
    );
    assert!(matches!(r, Err(Error::TokenExpired)));
    assert_eq!(http_status(&r), 422);
}

#[test]
fn counters_never_decrease() {
    let mut store = store_with(bob_address());
    let mut cache = Cache::new();
    let mut last_used = store.addresses[0].storage_used;
    let mut last_received = store.addresses[0].num_received;
    for round in 0..3u16 {
        let mut mail = message("alice@example.com", &["bob@vaulty.net"], 1, "body", 64);
        mail.uuid = format!("uuid-{}", round);
        handle_email(&mut store, &mut cache, &mail, round as i64).unwrap();
        let req = AttachmentRequest {
            mail_id: mail.uuid.clone(),
            name: "f.bin".to_string(),
            index: 0,
            size: 32,
        };
        attachment_begin(&mut store, &mut cache, &req).unwrap();
        attachment_finish(&mut store, &mut cache, &req, Ok(()), round as i64 + 1).unwrap();
        assert!(store.addresses[0].storage_used >= last_used);
        assert!(store.addresses[0].num_received >= last_received);
        last_used = store.addresses[0].storage_used;
        last_received = store.addresses[0].num_received;
    }
    assert_eq!(cache.num_processed, 3);
}
