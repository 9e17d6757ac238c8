//! The MIME model against real parsed messages: classification of inline
//! and regular attachments, header extraction, deterministic identity, and
//! the headers-only round trip.

use vaulty::email::{Attachment, Email, Header, MimePart};

/// Convert a tree parsed by the MIME library into the model the library
/// classifies.
fn to_part(part: &mailparse::ParsedMail) -> MimePart {
    let headers = part
        .headers
        .iter()
        .map(|h| Header {
            name: h.get_key(),
            value: h.get_value(),
        })
        .collect();
    MimePart {
        mime: part.ctype.mimetype.clone(),
        charset: part.ctype.charset.clone(),
        filename: part.ctype.params.get("name").cloned(),
        headers,
        body: part.get_body().ok(),
        body_raw: part.get_body_raw().ok(),
        subparts: part.subparts.iter().map(to_part).collect(),
    }
}

fn parse(raw: &str, sender: &str, recipients: Vec<String>) -> Email {
    let parsed = mailparse::parse_mail(raw.as_bytes()).unwrap();
    let tree = to_part(&parsed);
    Email::from_tree(&tree, sender.to_string(), recipients, raw.len())
}

const SAMPLE: &str = "Subject: ABC\r\n\
Message-ID: <id-123@example.com>\r\n\
Content-Type: multipart/mixed; boundary=\"sep\"\r\n\
\r\n\
--sep\r\n\
Content-Type: text/plain; charset=\"utf-8\"\r\n\
\r\n\
AAFAFAF\r\n\
--sep\r\n\
Content-Type: text/html; charset=\"utf-8\"\r\n\
\r\n\
<b>AAFAFAF</b>\r\n\
--sep\r\n\
Content-Type: text/x-c; name=\"hello.cpp\"\r\n\
Content-Disposition: attachment; filename=\"hello.cpp\"\r\n\
Content-Transfer-Encoding: base64\r\n\
\r\n\
aW50IG1haW4oKSB7fQo=\r\n\
--sep--\r\n";

const SAMPLE_INLINE: &str = "Subject: Pictures\r\n\
Content-Type: multipart/related; boundary=\"sep\"\r\n\
\r\n\
--sep\r\n\
Content-Type: text/plain\r\n\
Content-Disposition: inline\r\n\
\r\n\
see the logo\r\n\
--sep\r\n\
Content-Type: image/gif; name=\"logo.gif\"\r\n\
Content-Disposition: inline\r\n\
Content-ID: <logo@cid>\r\n\
Content-Transfer-Encoding: base64\r\n\
\r\n\
R0lGODlhAQABAAAAACw=\r\n\
--sep--\r\n";

#[test]
fn parse_body_and_headers() {
    let mail = parse(SAMPLE, "alice@example.com", vec!["bob@vaulty.net".to_string()]);
    assert_eq!(mail.body, "AAFAFAF\r\n");
    assert_eq!(mail.body_html.as_deref(), Some("<b>AAFAFAF</b>\r\n"));
    assert_eq!(mail.subject.as_deref(), Some("ABC"));
    // Angle brackets are stripped off the stored Message-ID.
    assert_eq!(mail.message_id.as_deref(), Some("id-123@example.com"));
    assert_eq!(mail.size, SAMPLE.len());
}

#[test]
fn parse_attachments() {
    let mail = parse(SAMPLE, "alice@example.com", vec!["bob@vaulty.net".to_string()]);
    assert_eq!(mail.num_attachments, 1);
    let attachments = mail.attachments.as_ref().unwrap();
    assert_eq!(attachments.len(), 1);
    assert_eq!(attachments[0].get_name(), "hello.cpp");
    assert_eq!(attachments[0].get_mime(), "text/x-c");
    assert_eq!(attachments[0].get_data().as_slice(), b"int main() {}\n");
    assert_eq!(attachments[0].get_size(), b"int main() {}\n".len());
    assert_eq!(attachments[0].get_index(), 0);
    assert_eq!(attachments[0].get_email_id(), &mail.uuid);
    assert!(attachments[0].is_regular());
    assert!(!attachments[0].is_inline());
}

#[test]
fn parse_inline_attachments() {
    let mail = parse(SAMPLE_INLINE, "alice@example.com", vec!["bob@vaulty.net".to_string()]);
    // The inline text part is the body, never an attachment; the inline
    // image part is an attachment.
    assert_eq!(mail.body, "see the logo\r\n");
    assert_eq!(mail.num_attachments, 1);
    let attachments = mail.attachments.as_ref().unwrap();
    assert_eq!(attachments[0].get_name(), "logo.gif");
    assert!(attachments[0].is_inline());
    assert_eq!(attachments[0].data_ref().content_id.as_deref(), Some("<logo@cid>"));
    assert_eq!(attachments[0].data_ref().charset.as_deref(), Some("us-ascii"));
}

#[test]
fn uuid_is_deterministic_and_matches_reference() {
    let a = parse(SAMPLE, "alice@example.com", vec!["bob@vaulty.net".to_string()]);
    let b = parse(SAMPLE, "alice@example.com", vec!["bob@vaulty.net".to_string()]);
    assert_eq!(a.uuid, b.uuid);

    // The identity is the version-5 UUID of
    // message_id ++ subject ++ sender ++ recipients under the fixed
    // namespace, computed here with the UUID library directly.
    let namespace = uuid::Uuid::from_u128(0x11d00b11d9d05831a6f78f88f86f870au128);
    let mut payload = Vec::new();
    payload.extend(b"id-123@example.com");
    payload.extend(b"ABC");
    payload.extend(b"alice@example.com");
    payload.extend(b"bob@vaulty.net");
    let expected = uuid::Uuid::new_v5(&namespace, &payload).hyphenated().to_string();
    assert_eq!(a.uuid, expected);

    // A different sender yields a different identity.
    let c = parse(SAMPLE, "carol@example.com", vec!["bob@vaulty.net".to_string()]);
    assert_ne!(a.uuid, c.uuid);
}

#[test]
fn generate_uuid_direct() {
    let id = vaulty::email::generate_uuid(
        &None,
        &None,
        "alice@example.com",
        &vec!["bob@vaulty.net".to_string()],
    );
    let namespace = uuid::Uuid::from_u128(0x11d00b11d9d05831a6f78f88f86f870au128);
    let expected =
        uuid::Uuid::new_v5(&namespace, b"alice@example.combob@vaulty.net").hyphenated().to_string();
    assert_eq!(id, expected);
}

#[test]
fn classification_rejects_unknown_disposition() {
    let part = MimePart {
        mime: "image/png".to_string(),
        charset: "us-ascii".to_string(),
        filename: Some("p.png".to_string()),
        headers: vec![Header {
            name: "Content-Disposition".to_string(),
            value: "banana; filename=p.png".to_string(),
        }],
        body: None,
        body_raw: Some(vec![1, 2, 3]),
        subparts: vec![],
    };
    assert!(Attachment::from_mime(&part).is_none());
}

#[test]
fn classification_uses_first_disposition_token() {
    let part = MimePart {
        mime: "Image/PNG".to_string(),
        charset: "US-ASCII".to_string(),
        filename: Some("p.png".to_string()),
        headers: vec![Header {
            name: "Content-Disposition".to_string(),
            value: "attachment; filename=p.png".to_string(),
        }],
        body: None,
        body_raw: Some(vec![9, 9]),
        subparts: vec![],
    };
    let a = Attachment::from_mime(&part).unwrap();
    assert!(a.is_regular());
    // MIME type and charset are case-folded.
    assert_eq!(a.get_mime(), "image/png");
    assert_eq!(a.data_ref().charset.as_deref(), Some("us-ascii"));
}

#[test]
fn header_round_trip_preserves_subject_and_message_id() {
    let mail = parse(SAMPLE, "alice@example.com", vec!["bob@vaulty.net".to_string()]);
    let headers = vaulty::email::reserialize_headers(&mail);
    let tree = MimePart {
        mime: "text/plain".to_string(),
        charset: "us-ascii".to_string(),
        filename: None,
        headers,
        body: Some(String::new()),
        body_raw: Some(Vec::new()),
        subparts: vec![],
    };
    let again = Email::from_tree(
        &tree,
        "alice@example.com".to_string(),
        vec!["bob@vaulty.net".to_string()],
        0,
    );
    assert_eq!(again.subject, mail.subject);
    assert_eq!(again.message_id, mail.message_id);
}

#[test]
fn builders_replace_envelope() {
    let mail = Email::new()
        .with_sender("s@example.com".to_string())
        .with_recipients(vec!["r@vaulty.net".to_string()]);
    assert_eq!(mail.sender, "s@example.com");
    assert_eq!(mail.recipients, vec!["r@vaulty.net".to_string()]);
}
