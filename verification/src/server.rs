//! The server's ingestion logic: HTTP Basic auth, the `email` endpoint's
//! policy state machine, and the two halves of the `attachment` endpoint
//! around the storage upload. Each handler is a transition on the policy
//! store and the session cache; the HTTP and SQL plumbing outside the
//! library performs the same steps against the real world.

use vstd::prelude::*;

use base64::Engine;

use crate::api::ServerResult;
use crate::cache::{Cache, CacheEntry};
use crate::db::{Address, LogLevel, Store};
use crate::email::Email;
use crate::error::Error;
use crate::storage;
use crate::text;

verus! {

/// The standard base64 encoding of a byte string.
pub uninterp spec fn base64_of(bytes: Seq<u8>) -> Seq<char>;

/// Relies on base64's standard-alphabet engine (`STANDARD.encode`): the
/// encoding is a function of the input bytes alone.
#[verifier::external_body]
fn encode_base64(input: &[u8]) -> (r: String)
    ensures
        r@ == base64_of(input@),
{
    base64::engine::general_purpose::STANDARD.encode(input)
}

/// The credential pair as it appears in an HTTP Basic `Authorization`
/// header: base64 of `user:pass`.
pub open spec fn spec_credentials(user: Seq<char>, pass: Seq<char>) -> Seq<char> {
    base64_of(vstd::utf8::encode_utf8(user + ":"@ + pass))
}

/// Check an `Authorization` header against the configured credential pair:
/// the header passes exactly when it contains the base64-encoded pair.
pub fn basic_auth(auth: &str, user: &str, pass: &str) -> (r: Result<(), Error>)
    ensures
        r is Ok <==> text::spec_contains(auth@, spec_credentials(user@, pass@)),
        r is Err ==> r == Result::<(), Error>::Err(Error::Unauthorized),
{
    let mut full = user.to_owned();
    full.push(':');
    full.append(pass);
    proof {
        reveal_strlit(":");
        assert(":"@ =~= seq![':']);
        assert(full@ == user@ + ":"@ + pass@);
    }
    let full_str = full.as_str();
    let encoded = encode_base64(full_str.as_bytes());
    if text::contains_str(auth, encoded.as_str()) {
        Ok(())
    } else {
        Err(Error::Unauthorized)
    }
}

/// Log text for a message none of whose recipients has an address row.
pub open spec fn spec_msg_invalid_recipient(email: Email) -> Seq<char> {
    "Rejecting email message_id: "@ + (match email.message_id {
        Some(m) => m@,
        None => "N/A"@,
    }) + ", from: "@ + email.sender@ + ", to: "@ + text::spec_join(
        email.recipients.deep_view(),
        ", "@,
    )
}

/// Log text for a sender rejected by the recipient's whitelist.
pub open spec fn spec_msg_whitelist(email: Email, recipient: Seq<char>) -> Seq<char> {
    "Rejecting email "@ + email.uuid@ + " (Message-ID: "@ + (match email.message_id {
        Some(m) => m@,
        None => "N/A"@,
    }) + "): sender "@ + email.sender@ + " is not on "@ + recipient + " whitelist"@
}

/// User-visible text for a message over the recipient's size limit.
pub open spec fn spec_msg_too_large(recipient: Seq<char>, max_email_size: int) -> Seq<char> {
    "This email is larger than allowed for "@ + recipient + ": the maximum email size is "@
        + text::spec_dec((max_email_size / 1000000) as nat) + " MB."@
}

/// User-visible text for a recipient out of storage.
pub open spec fn spec_msg_storage_quota(recipient: Seq<char>, storage_quota: int) -> Seq<char> {
    "Address "@ + recipient + " has hit its storage quota of "@ + text::spec_dec(
        (storage_quota / 1000000) as nat,
    ) + " MB for this period."@
}

/// User-visible text for a recipient out of messages for the period.
pub open spec fn spec_msg_email_quota(recipient: Seq<char>, email_quota: int) -> Seq<char> {
    "Address "@ + recipient + " has hit its quota of "@ + text::spec_dec(email_quota as nat)
        + " emails for this period."@
}

/// Audit text for an accepted message.
pub open spec fn spec_msg_got_email(recipient: Seq<char>) -> Seq<char> {
    "Got email for recipient "@ + recipient
}

/// The success body of the `email` endpoint: sender and message UUID.
pub open spec fn spec_msg_email_ok(sender: Seq<char>, uuid: Seq<char>) -> Seq<char> {
    sender + ", "@ + uuid
}

/// Error text for an attachment arriving without a session.
pub open spec fn spec_msg_no_session(mail_id: Seq<char>) -> Seq<char> {
    "No entry found for one of the attachments (mail_id: "@ + mail_id + ")"@
}

/// Acknowledgement for an attachment index uploaded once already.
pub open spec fn spec_msg_already(index: u16, mail_id: Seq<char>) -> Seq<char> {
    "Attachment "@ + text::spec_dec(index as nat) + " has already been processed for email "@
        + mail_id
}

/// Audit text for an accepted attachment.
pub open spec fn spec_msg_got_attachment(recipient: Seq<char>) -> Seq<char> {
    "Got attachment for recipient "@ + recipient
}

/// The success body of the `attachment` endpoint.
pub open spec fn spec_msg_attachment_info(
    name: Seq<char>,
    recipient: Seq<char>,
    size: nat,
    mail_id: Seq<char>,
) -> Seq<char> {
    "Attachment name: "@ + name + ", Recipient: "@ + recipient + ", Size: "@ + text::spec_dec(size)
        + ", UUID: "@ + mail_id
}

fn msg_invalid_recipient(email: &Email) -> (r: String)
    ensures
        r@ == spec_msg_invalid_recipient(*email),
{
    let mut out = String::from_str("Rejecting email message_id: ");
    match &email.message_id {
        Some(m) => out.append(m.as_str()),
        None => out.append("N/A"),
    }
    out.append(", from: ");
    out.append(email.sender.as_str());
    out.append(", to: ");
    let joined = text::join(&email.recipients, ", ");
    out.append(joined.as_str());
    out
}

fn msg_whitelist(email: &Email, recipient: &str) -> (r: String)
    ensures
        r@ == spec_msg_whitelist(*email, recipient@),
{
    let mut out = String::from_str("Rejecting email ");
    out.append(email.uuid.as_str());
    out.append(" (Message-ID: ");
    match &email.message_id {
        Some(m) => out.append(m.as_str()),
        None => out.append("N/A"),
    }
    out.append("): sender ");
    out.append(email.sender.as_str());
    out.append(" is not on ");
    out.append(recipient);
    out.append(" whitelist");
    out
}

fn msg_too_large(recipient: &str, max_email_size: i32) -> (r: String)
    requires
        max_email_size >= 0,
    ensures
        r@ == spec_msg_too_large(recipient@, max_email_size as int),
{
    let mut out = String::from_str("This email is larger than allowed for ");
    out.append(recipient);
    out.append(": the maximum email size is ");
    let mb = text::u64_to_string((max_email_size / 1000000) as u64);
    out.append(mb.as_str());
    out.append(" MB.");
    out
}

fn msg_storage_quota(recipient: &str, storage_quota: i64) -> (r: String)
    requires
        storage_quota >= 0,
    ensures
        r@ == spec_msg_storage_quota(recipient@, storage_quota as int),
{
    let mut out = String::from_str("Address ");
    out.append(recipient);
    out.append(" has hit its storage quota of ");
    let mb = text::u64_to_string((storage_quota / 1000000) as u64);
    out.append(mb.as_str());
    out.append(" MB for this period.");
    out
}

fn msg_email_quota(recipient: &str, email_quota: i32) -> (r: String)
    requires
        email_quota >= 0,
    ensures
        r@ == spec_msg_email_quota(recipient@, email_quota as int),
{
    let mut out = String::from_str("Address ");
    out.append(recipient);
    out.append(" has hit its quota of ");
    let q = text::u64_to_string(email_quota as u64);
    out.append(q.as_str());
    out.append(" emails for this period.");
    out
}

fn msg_got_email(recipient: &str) -> (r: String)
    ensures
        r@ == spec_msg_got_email(recipient@),
{
    let mut out = String::from_str("Got email for recipient ");
    out.append(recipient);
    out
}

fn msg_email_ok(sender: &str, uuid: &str) -> (r: String)
    ensures
        r@ == spec_msg_email_ok(sender@, uuid@),
{
    let mut out = sender.to_owned();
    out.append(", ");
    out.append(uuid);
    out
}

fn msg_no_session(mail_id: &str) -> (r: String)
    ensures
        r@ == spec_msg_no_session(mail_id@),
{
    let mut out = String::from_str("No entry found for one of the attachments (mail_id: ");
    out.append(mail_id);
    out.append(")");
    out
}

fn msg_already(index: u16, mail_id: &str) -> (r: String)
    ensures
        r@ == spec_msg_already(index, mail_id@),
{
    let mut out = String::from_str("Attachment ");
    let ix = text::u64_to_string(index as u64);
    out.append(ix.as_str());
    out.append(" has already been processed for email ");
    out.append(mail_id);
    out
}

fn msg_got_attachment(recipient: &str) -> (r: String)
    ensures
        r@ == spec_msg_got_attachment(recipient@),
{
    let mut out = String::from_str("Got attachment for recipient ");
    out.append(recipient);
    out
}

fn msg_attachment_info(name: &str, recipient: &str, size: usize, mail_id: &str) -> (r: String)
    ensures
        r@ == spec_msg_attachment_info(name@, recipient@, size as nat, mail_id@),
{
    let mut out = String::from_str("Attachment name: ");
    out.append(name);
    out.append(", Recipient: ");
    out.append(recipient);
    out.append(", Size: ");
    let s = text::u64_to_string(size as u64);
    out.append(s.as_str());
    out.append(", UUID: ");
    out.append(mail_id);
    out
}

/// The recipients of `email` narrowed to the one resolved address.
pub open spec fn spec_narrowed(email: Email, address: Seq<char>) -> Seq<Seq<char>> {
    email.recipients.deep_view().filter(|x: Seq<char>| x == address)
}

/// Copy a message for its session, narrowing the recipient list to the one
/// resolved address. The attachment list is not kept: attachment bytes
/// travel in their own requests.
fn narrow_email(email: &Email, address: &str) -> (r: Email)
    ensures
        r.sender == email.sender,
        r.recipients.deep_view() == spec_narrowed(*email, address@),
        r.subject == email.subject,
        r.body == email.body,
        r.body_html == email.body_html,
        r.size == email.size,
        r.num_attachments == email.num_attachments,
        r.attachments is None,
        r.uuid == email.uuid,
        r.message_id == email.message_id,
{
    let ghost pred = |x: Seq<char>| x == address@;
    let mut kept: Vec<String> = Vec::new();
    let n = email.recipients.len();
    let mut i: usize = 0;
    proof {
        assert(email.recipients.deep_view().subrange(0, 0) =~= Seq::<Seq<char>>::empty());
        reveal_with_fuel(Seq::<Seq<char>>::filter, 1);
        assert(kept.deep_view() =~= email.recipients.deep_view().subrange(0, 0).filter(pred));
    }
    while i < n
        invariant
            n == email.recipients@.len(),
            i <= n,
            pred == (|x: Seq<char>| x == address@),
            kept.deep_view() == email.recipients.deep_view().subrange(0, i as int).filter(pred),
        decreases n - i,
    {
        let ghost dv = email.recipients.deep_view();
        proof {
            reveal_with_fuel(Seq::<Seq<char>>::filter, 2);
            assert(dv.subrange(0, i + 1).drop_last() == dv.subrange(0, i as int));
            assert(dv.subrange(0, i + 1).last() == dv[i as int]);
            assert(dv[i as int] == email.recipients@[i as int]@);
        }
        if text::str_eq(email.recipients[i].as_str(), address) {
            kept.push(email.recipients[i].clone());
            assert(kept.deep_view() =~= dv.subrange(0, i + 1).filter(pred));
        } else {
            assert(kept.deep_view() =~= dv.subrange(0, i + 1).filter(pred));
        }
        i = i + 1;
    }
    proof {
        assert(email.recipients.deep_view().subrange(0, n as int) == email.recipients.deep_view());
    }
    Email {
        sender: email.sender.clone(),
        recipients: kept,
        subject: match &email.subject {
            Some(s) => Some(s.clone()),
            None => None,
        },
        body: email.body.clone(),
        body_html: match &email.body_html {
            Some(s) => Some(s.clone()),
            None => None,
        },
        size: email.size,
        num_attachments: email.num_attachments,
        attachments: None,
        uuid: email.uuid.clone(),
        message_id: match &email.message_id {
            Some(s) => Some(s.clone()),
            None => None,
        },
    }
}

/// What the `email` endpoint decides for a message, evaluated in the order
/// the endpoint checks: a present session short-circuits; then recipient
/// resolution, the sender whitelist, and the three quota gates.
pub enum EmailVerdict {
    CacheHit,
    NoRecipient,
    NotWhitelisted,
    TooLarge,
    StorageFull,
    MailQuota,
    Accepted,
}

/// The address row a message resolves to.
pub open spec fn spec_resolved(store: Store, email: Email) -> Address {
    store.addresses@[crate::db::spec_find_address(
        store.addresses@,
        email.recipients.deep_view(),
    )->0]
}

pub open spec fn spec_email_verdict(store: Store, cache: Cache, email: Email) -> EmailVerdict {
    if email.num_attachments > 0 && cache.spec_contains(email.uuid@) {
        EmailVerdict::CacheHit
    } else {
        match crate::db::spec_find_address(store.addresses@, email.recipients.deep_view()) {
            None => EmailVerdict::NoRecipient,
            Some(i) => {
                let a = store.addresses@[i];
                if !a.spec_sender_allowed(email.sender@) {
                    EmailVerdict::NotWhitelisted
                } else if email.size > a.max_email_size {
                    EmailVerdict::TooLarge
                } else if a.storage_used + email.size > a.storage_quota {
                    EmailVerdict::StorageFull
                } else if a.num_received + 1 > a.email_quota {
                    EmailVerdict::MailQuota
                } else {
                    EmailVerdict::Accepted
                }
            },
        }
    }
}

/// Counters never go backwards: every address keeps its identity and its
/// `storage_used` and `num_received` only grow.
pub open spec fn spec_counters_nondecreasing(a: Seq<Address>, b: Seq<Address>) -> bool {
    &&& b.len() == a.len()
    &&& forall|i: int|
        0 <= i < a.len() ==> (#[trigger] b[i]).address@ == a[i].address@ && b[i].storage_used
            >= a[i].storage_used && b[i].num_received >= a[i].num_received
}

/// The `email` endpoint: decide a message's fate and record it.
///
/// A message whose session already exists is acknowledged again with no
/// side effect at all — the idempotence a retrying filter relies on. A
/// message none of whose recipients has a row is rejected as an invalid
/// recipient, and one whose sender the recipient's whitelist refuses is
/// rejected without any mail row — only an audit entry is written. An
/// accepted message is inserted, charged against the recipient's counters
/// (body bytes, one received message), and given a session when it has
/// attachments. A message failing any of the three quota gates is recorded
/// as failed and charged nothing.
pub fn handle_email(store: &mut Store, cache: &mut Cache, email: &Email, now: i64) -> (r: Result<
    ServerResult,
    Error,
>)
    requires
        old(store).wf(),
        old(cache).wf(),
        email.size <= 0x1000000000000000,
        vstd::utf8::encode_utf8(email.body@).len() < 0x80000000,
    ensures
        final(store).wf(),
        final(cache).wf(),
        spec_counters_nondecreasing(old(store).addresses@, final(store).addresses@),
        final(store).logs@.len() >= old(store).logs@.len() && final(store).logs@.subrange(
            0,
            old(store).logs@.len() as int,
        ) == old(store).logs@,
        match spec_email_verdict(*old(store), *old(cache), *email) {
            EmailVerdict::CacheHit => {
                &&& r matches Ok(res) && res.success && (res.message matches Some(m) && m@
                    == spec_msg_email_ok(email.sender@, email.uuid@))
                &&& *final(store) == *old(store)
                &&& *final(cache) == *old(cache)
            },
            EmailVerdict::NoRecipient => {
                &&& r == Result::<ServerResult, Error>::Err(Error::InvalidRecipient)
                &&& final(store).mail == old(store).mail
                &&& final(store).addresses == old(store).addresses
                &&& final(store).logs@.len() == old(store).logs@.len() + 1
                &&& final(store).logs@.last().level is Warning
                &&& final(store).logs@.last().mail_id is None
                &&& final(store).logs@.last().msg@ == spec_msg_invalid_recipient(*email)
                &&& *final(cache) == *old(cache)
            },
            EmailVerdict::NotWhitelisted => {
                let a = spec_resolved(*old(store), *email);
                &&& r matches Err(Error::SenderNotWhitelisted { recipient }) && recipient@
                    == a.address@
                &&& final(store).mail == old(store).mail
                &&& final(store).addresses == old(store).addresses
                &&& final(store).logs@.len() == old(store).logs@.len() + 1
                &&& final(store).logs@.last().level is Warning
                &&& final(store).logs@.last().mail_id is None
                &&& final(store).logs@.last().msg@ == spec_msg_whitelist(*email, a.address@)
                &&& *final(cache) == *old(cache)
            },
            EmailVerdict::TooLarge => {
                let a = spec_resolved(*old(store), *email);
                &&& r matches Err(Error::QuotaExceeded(m)) && m@ == spec_msg_too_large(
                    a.address@,
                    a.max_email_size as int,
                )
                &&& spec_email_failed(*old(store), *final(store), *old(cache), *final(cache), *email, spec_msg_too_large(a.address@, a.max_email_size as int))
            },
            EmailVerdict::StorageFull => {
                let a = spec_resolved(*old(store), *email);
                &&& r matches Err(Error::QuotaExceeded(m)) && m@ == spec_msg_storage_quota(
                    a.address@,
                    a.storage_quota as int,
                )
                &&& spec_email_failed(*old(store), *final(store), *old(cache), *final(cache), *email, spec_msg_storage_quota(a.address@, a.storage_quota as int))
            },
            EmailVerdict::MailQuota => {
                let a = spec_resolved(*old(store), *email);
                &&& r matches Err(Error::QuotaExceeded(m)) && m@ == spec_msg_email_quota(
                    a.address@,
                    a.email_quota as int,
                )
                &&& spec_email_failed(*old(store), *final(store), *old(cache), *final(cache), *email, spec_msg_email_quota(a.address@, a.email_quota as int))
            },
            EmailVerdict::Accepted => {
                let a = spec_resolved(*old(store), *email);
                let i = crate::db::spec_find_address(
                    old(store).addresses@,
                    email.recipients.deep_view(),
                )->0;
                &&& r matches Ok(res) && res.success && (res.message matches Some(m) && m@
                    == spec_msg_email_ok(email.sender@, email.uuid@))
                &&& crate::db::spec_mail_row_of(final(store).mail@, email.uuid@) matches Some(row)
                    && row.uuid@ == email.uuid@ && row.address@ == a.address@
                    && row.num_attachments == email.num_attachments && row.total_size == email.size
                    && row.status && row.error_msg@ == Seq::<char>::empty()
                &&& spec_mail_frame(old(store).mail@, final(store).mail@, email.uuid@)
                &&& final(store).addresses@.len() == old(store).addresses@.len()
                &&& final(store).addresses@[i].storage_used == a.storage_used + vstd::utf8::encode_utf8(email.body@).len()
                &&& final(store).addresses@[i].num_received == a.num_received + 1
                &&& forall|j: int|
                    0 <= j < old(store).addresses@.len() && j != i ==> final(store).addresses@[j]
                        == old(store).addresses@[j]
                &&& (email.num_attachments > 0 ==> (final(cache).spec_get(email.uuid@)
                    matches Some(e) && {
                    &&& e.attachments_processed@ == Seq::<u16>::empty()
                    &&& e.address.eqv(a)
                    &&& e.email.uuid@ == email.uuid@
                    &&& e.email.sender == email.sender
                    &&& e.email.num_attachments == email.num_attachments
                    &&& e.email.size == email.size
                    &&& e.email.recipients.deep_view() == spec_narrowed(*email, a.address@)
                    &&& e.insertion_time == now
                }))
                &&& (email.num_attachments == 0 ==> *final(cache) == *old(cache))
                &&& final(cache).num_processed == old(cache).num_processed
                &&& final(cache).avg_processing_time == old(cache).avg_processing_time
                &&& forall|k: Seq<char>|
                    k != email.uuid@ ==> final(cache).spec_get(k) == old(cache).spec_get(k)
            },
        },
{
    let uuid = email.uuid.clone();
    let ok_result = ServerResult {
        success: true,
        message: Some(msg_email_ok(email.sender.as_str(), email.uuid.as_str())),
        storage_backend: None,
        num_attachments: None,
        error: None,
    };
    if email.num_attachments > 0 && cache.contains(uuid.as_str()) {
        return Ok(ok_result);
    }
    let address = match store.get_address(&email.recipients) {
        Some(a) => a,
        None => {
            let m = msg_invalid_recipient(email);
            store.log(m, None, LogLevel::Warning);
            return Err(Error::InvalidRecipient);
        },
    };
    let ghost i = crate::db::spec_find_address(
        old(store).addresses@,
        email.recipients.deep_view(),
    )->0;
    let ghost row = old(store).addresses@[i];
    proof {
        crate::db::lemma_find_address_ensures(
            old(store).addresses@,
            email.recipients.deep_view(),
        );
        assert(address.eqv(row) && row.wf());
    }
    let narrowed = narrow_email(email, address.address.as_str());
    if !address.validate_sender(&narrowed) {
        let m = msg_whitelist(email, address.address.as_str());
        store.log(m, None, LogLevel::Warning);
        return Err(Error::SenderNotWhitelisted { recipient: address.address.clone() });
    }
    proof {
        assert(email.recipients.deep_view().contains(row.address@));
        let w = choose|w: int|
            0 <= w < email.recipients.deep_view().len() && email.recipients.deep_view()[w]
                == row.address@;
        email.recipients.deep_view().lemma_filter_contains(
            |x: Seq<char>| x == address.address@,
            w,
        );
    }
    assert(narrowed.recipients.deep_view().len() > 0);
    assert(narrowed.recipients@.len() > 0);
    proof {
        email.recipients.deep_view().lemma_filter_pred(|x: Seq<char>| x == address.address@, 0);
        assert(email.recipients.deep_view().filter(|x: Seq<char>| x == address.address@)[0]
            == address.address@);
        assert(narrowed.recipients.deep_view()[0] == address.address@);
    }
    store.insert_email(&narrowed);
    proof {
        assert(narrowed.uuid@ == email.uuid@);
        crate::db::lemma_find_mail_ensures(store.mail@, email.uuid@);
    }
    let too_large = email.size > (address.max_email_size as usize);
    let storage_exceeded = if address.storage_used > address.storage_quota {
        true
    } else {
        (email.size as u64) > ((address.storage_quota - address.storage_used) as u64)
    };
    let quota_exceeded = address.num_received >= address.email_quota;
    if too_large || storage_exceeded || quota_exceeded {
        let m = if too_large {
            msg_too_large(address.address.as_str(), address.max_email_size)
        } else if storage_exceeded {
            msg_storage_quota(address.address.as_str(), address.storage_quota)
        } else {
            msg_email_quota(address.address.as_str(), address.email_quota)
        };
        store.log(m.clone(), Some(uuid.clone()), LogLevel::Warning);
        let ghost mail1 = store.mail@;
        let ghost k = crate::db::spec_find_mail(mail1, email.uuid@)->0;
        proof {
            assert(uuid@ == email.uuid@);
            crate::db::lemma_find_mail_ensures(mail1, email.uuid@);
        }
        store.update_email(uuid.as_str(), false, Some(m.as_str()));
        proof {
            assert(store.mail@[k].uuid@ == email.uuid@);
            assert forall|j: int| 0 <= j < k implies (#[trigger] store.mail@[j].uuid@)
                != email.uuid@ by {
                assert(store.mail@[j] == mail1[j]);
            }
            crate::db::lemma_find_mail_prefix(store.mail@, email.uuid@, k);
        }
        return Err(Error::QuotaExceeded(m));
    }
    let body_len = email.body.as_str().len();
    proof {
        assert(forall|j: int|
            0 <= j < store.addresses@.len() && j != i ==> (
            #[trigger] store.addresses@[j].address@) != address.address@);
    }
    let ghost pre = store.addresses@;
    address.update_storage_used(body_len, true, store);
    proof {
        assert(pre == old(store).addresses@);
        assert(store.addresses@.len() == pre.len());
        assert(pre[i].address@ == address.address@);
        assert(store.addresses@[i] == (Address {
            storage_used: (pre[i].storage_used + body_len) as i64,
            num_received: (pre[i].num_received + 1) as i32,
            ..pre[i]
        }));
        assert forall|j: int| 0 <= j < store.addresses@.len() implies (
        #[trigger] store.addresses@[j]).wf() by {
            assert(pre[j].address@ == old(store).addresses@[j].address@);
            assert(old(store).addresses@[j].wf());
        }
        assert forall|j: int, k: int| 0 <= j < k < store.addresses@.len() implies (
        #[trigger] store.addresses@[j].address@) != (#[trigger] store.addresses@[k].address@) by {
            assert(store.addresses@[j].address@ == old(store).addresses@[j].address@);
            assert(store.addresses@[k].address@ == old(store).addresses@[k].address@);
        }
        assert forall|j: int|
            0 <= j < old(store).addresses@.len() implies (
        #[trigger] store.addresses@[j]).address@ == old(store).addresses@[j].address@
            && store.addresses@[j].storage_used >= old(store).addresses@[j].storage_used
            && store.addresses@[j].num_received >= old(store).addresses@[j].num_received by {
            assert(pre[j].address@ == old(store).addresses@[j].address@);
            if j != i {
                assert(old(store).addresses@[j].address@ != address.address@);
            }
        }
        assert(spec_counters_nondecreasing(old(store).addresses@, store.addresses@));
        assert(store.addresses@[i].storage_used == row.storage_used + vstd::utf8::encode_utf8(
            email.body@,
        ).len());
        assert(store.addresses@[i].num_received == row.num_received + 1);
        assert forall|j: int|
            0 <= j < old(store).addresses@.len() && j != i implies store.addresses@[j] == old(
            store,
        ).addresses@[j] by {
            assert(old(store).addresses@[j].address@ != address.address@);
        }
    }
    let m2 = msg_got_email(address.address.as_str());
    store.log(m2, Some(uuid.clone()), LogLevel::Info);
    if email.num_attachments > 0 {
        let entry = CacheEntry {
            email: narrowed,
            address,
            attachments_processed: Vec::new(),
            insertion_time: 0,
            last_updated: now,
        };
        cache.insert(uuid, entry, now);
    }
    Ok(ok_result)
}

/// One attachment request, as carried by the request headers: the owning
/// message, the attachment's name, its zero-based index, and its size in
/// bytes. The bytes themselves are streamed, never held whole.
pub struct AttachmentRequest {
    pub mail_id: String,
    pub name: String,
    pub index: u16,
    pub size: usize,
}

/// What the caller must do next for an accepted attachment: stream the
/// bytes to `upload_path` on the session's backend with its token, or
/// nothing when the backend needs no upload.
pub struct UploadCommand {
    pub upload_path: Option<String>,
    pub backend: storage::Backend,
    pub token: String,
}

/// The first half's outcome: an idempotent acknowledgement, or the upload
/// to perform.
pub enum AttachmentStep {
    AlreadyProcessed(ServerResult),
    Upload(UploadCommand),
}

/// User-visible text for an attachment pushing the recipient past its
/// storage quota.
pub open spec fn spec_msg_attachment_quota(recipient: Seq<char>, storage_quota: int) -> Seq<
    char,
> {
    "Address "@ + recipient + " has hit its quota of "@ + text::spec_dec(
        (storage_quota / 1000000) as nat,
    ) + " MB for this period."@
}

fn msg_attachment_quota(recipient: &str, storage_quota: i64) -> (r: String)
    requires
        storage_quota >= 0,
    ensures
        r@ == spec_msg_attachment_quota(recipient@, storage_quota as int),
{
    let mut out = String::from_str("Address ");
    out.append(recipient);
    out.append(" has hit its quota of ");
    let mb = text::u64_to_string((storage_quota / 1000000) as u64);
    out.append(mb.as_str());
    out.append(" MB for this period.");
    out
}

/// What the `attachment` endpoint decides before any upload, in the order
/// it checks: no session is an internal error; an index already uploaded is
/// acknowledged idempotently; an attachment past the storage quota is
/// rejected; everything else proceeds to the upload.
pub enum AttachmentVerdict {
    NoSession,
    AlreadyDone,
    StorageFull,
    Proceed,
}

pub open spec fn spec_attachment_verdict(cache: Cache, req: AttachmentRequest) -> AttachmentVerdict {
    match cache.spec_get(req.mail_id@) {
        None => AttachmentVerdict::NoSession,
        Some(e) => {
            if e.attachments_processed@.contains(req.index) {
                AttachmentVerdict::AlreadyDone
            } else if e.address.storage_used + req.size > e.address.storage_quota {
                AttachmentVerdict::StorageFull
            } else {
                AttachmentVerdict::Proceed
            }
        },
    }
}

/// The `attachment` endpoint, up to the upload: look up the session,
/// acknowledge an index that was already uploaded without any further
/// effect, re-check the storage quota against the session's address row,
/// and hand back the upload to perform.
pub fn attachment_begin(store: &mut Store, cache: &Cache, req: &AttachmentRequest) -> (r: Result<
    AttachmentStep,
    Error,
>)
    requires
        old(store).wf(),
        cache.wf(),
        req.size <= 0x1000000000000000,
        cache.spec_get(req.mail_id@) matches Some(e) ==> e.address.wf()
            && e.email.recipients@.len() > 0,
    ensures
        final(store).wf(),
        final(store).addresses == old(store).addresses,
        final(store).logs@.len() >= old(store).logs@.len() && final(store).logs@.subrange(
            0,
            old(store).logs@.len() as int,
        ) == old(store).logs@,
        match spec_attachment_verdict(*cache, *req) {
            AttachmentVerdict::NoSession => {
                &&& r matches Err(Error::Generic(m)) && m@ == spec_msg_no_session(req.mail_id@)
                &&& *final(store) == *old(store)
            },
            AttachmentVerdict::AlreadyDone => {
                &&& r matches Ok(AttachmentStep::AlreadyProcessed(res)) && res.success && (
                res.message matches Some(m) && m@ == spec_msg_already(req.index, req.mail_id@))
                &&& *final(store) == *old(store)
            },
            AttachmentVerdict::StorageFull => {
                let e = cache.spec_get(req.mail_id@)->0;
                let msg = spec_msg_attachment_quota(
                    e.email.recipients.deep_view()[0],
                    e.address.storage_quota as int,
                );
                &&& r matches Err(Error::QuotaExceeded(m)) && m@ == msg
                &&& final(store).logs@.len() == old(store).logs@.len() + 2
                &&& final(store).logs@.last().level is Warning
                &&& final(store).logs@.last().msg@ == msg
                &&& (final(store).logs@.last().mail_id matches Some(u) && u@ == e.email.uuid@)
                &&& match crate::db::spec_find_mail(old(store).mail@, e.email.uuid@) {
                    Some(i) => {
                        &&& final(store).mail@.len() == old(store).mail@.len()
                        &&& final(store).mail@[i] == (crate::db::MailRow {
                            status: false,
                            error_msg: final(store).mail@[i].error_msg,
                            ..old(store).mail@[i]
                        })
                        &&& final(store).mail@[i].error_msg@ == msg
                        &&& forall|j: int|
                            0 <= j < old(store).mail@.len() && j != i ==> final(store).mail@[j]
                                == old(store).mail@[j]
                    },
                    None => final(store).mail == old(store).mail,
                }
            },
            AttachmentVerdict::Proceed => {
                let e = cache.spec_get(req.mail_id@)->0;
                &&& r matches Ok(AttachmentStep::Upload(cmd)) && ({
                    &&& cmd.backend == e.address.storage_backend
                    &&& cmd.token@ == e.address.storage_token@
                    &&& match cmd.upload_path {
                        Some(p) => e.address.storage_backend is Dropbox && p@
                            == e.address.storage_path@ + "/"@ + req.name@,
                        None => !(e.address.storage_backend is Dropbox),
                    }
                })
                &&& final(store).mail == old(store).mail
                &&& final(store).logs@.len() == old(store).logs@.len() + 1
            },
        },
{
    let entry = match cache.get(req.mail_id.as_str()) {
        None => {
            let m = msg_no_session(req.mail_id.as_str());
            return Err(Error::Generic(m));
        },
        Some(e) => e,
    };
    let mut seen = false;
    let n = entry.attachments_processed.len();
    let mut i: usize = 0;
    while i < n
        invariant
            n == entry.attachments_processed@.len(),
            i <= n,
            seen == exists|j: int| 0 <= j < i && entry.attachments_processed@[j] == req.index,
        decreases n - i,
    {
        if entry.attachments_processed[i] == req.index {
            seen = true;
        }
        i = i + 1;
    }
    if seen {
        let res = ServerResult {
            success: true,
            message: Some(msg_already(req.index, req.mail_id.as_str())),
            storage_backend: None,
            num_attachments: None,
            error: None,
        };
        return Ok(AttachmentStep::AlreadyProcessed(res));
    }
    assert(!entry.attachments_processed@.contains(req.index));
    let recipient = &entry.email.recipients[0];
    proof {
        assert(entry.email.recipients.deep_view()[0] == entry.email.recipients@[0]@);
    }
    let m = msg_got_attachment(recipient.as_str());
    store.log(m, Some(entry.email.uuid.clone()), LogLevel::Info);
    let storage_full = if entry.address.storage_used > entry.address.storage_quota {
        true
    } else {
        (req.size as u64) > ((entry.address.storage_quota - entry.address.storage_used) as u64)
    };
    if storage_full {
        let m = msg_attachment_quota(recipient.as_str(), entry.address.storage_quota);
        store.log(m.clone(), Some(entry.email.uuid.clone()), LogLevel::Warning);
        let ghost mail1 = store.mail@;
        let ghost k = crate::db::spec_find_mail(mail1, entry.email.uuid@)->0;
        proof {
            crate::db::lemma_find_mail_ensures(mail1, entry.email.uuid@);
        }
        store.update_email(entry.email.uuid.as_str(), false, Some(m.as_str()));
        proof {
            crate::db::lemma_find_mail_ensures(mail1, entry.email.uuid@);
            if crate::db::spec_find_mail(mail1, entry.email.uuid@) is Some {
                assert(store.mail@[k].uuid@ == entry.email.uuid@);
            }
        }
        return Err(Error::QuotaExceeded(m));
    }
    let handler = crate::EmailHandler::new(
        entry.address.storage_token.as_str(),
        &entry.address.storage_backend,
        entry.address.storage_path.as_str(),
    );
    let upload_path = handler.handle(true, req.name.as_str());
    Ok(
        AttachmentStep::Upload(
            UploadCommand {
                upload_path,
                backend: entry.address.storage_backend,
                token: entry.address.storage_token.clone(),
            },
        ),
    )
}

/// The `attachment` endpoint, after the upload. A failed upload marks the
/// message failed and keeps the session, so a redelivery retries the
/// attachment. A successful upload is charged to the recipient's storage
/// counter and recorded in the session; when it was the terminal
/// attachment, the session is evicted and the response carries the backend
/// and the completed attachment count.
pub fn attachment_finish(
    store: &mut Store,
    cache: &mut Cache,
    req: &AttachmentRequest,
    upload: Result<(), storage::Error>,
    now: i64,
) -> (r: Result<ServerResult, Error>)
    requires
        old(store).wf(),
        old(cache).wf(),
        req.size <= 0x1000000000000000,
        forall|j: int|
            0 <= j < old(store).addresses@.len() ==> (#[trigger] old(
                store,
            ).addresses@[j].storage_used) <= 0x4000000000000000,
        old(cache).spec_get(req.mail_id@) matches Some(e) && e.email.recipients@.len() > 0 && now
            >= e.insertion_time && now - e.insertion_time <= 0x4000000000000000,
        old(cache).num_processed < u64::MAX,
        old(cache).avg_processing_time <= 0x4000000000000000,
    ensures
        final(store).wf(),
        final(cache).wf(),
        spec_counters_nondecreasing(old(store).addresses@, final(store).addresses@),
        final(store).logs == old(store).logs,
        forall|k: Seq<char>|
            k != req.mail_id@ ==> final(cache).spec_get(k) == old(cache).spec_get(k),
        ({
            let e = old(cache).spec_get(req.mail_id@)->0;
            let terminal = e.attachments_processed@.len() + 1 >= e.email.num_attachments;
            match upload {
                Err(err) => {
                    &&& r == Result::<ServerResult, Error>::Err(
                        crate::error::spec_from_storage(err),
                    )
                    &&& final(store).addresses == old(store).addresses
                    &&& *final(cache) == *old(cache)
                    &&& match crate::db::spec_find_mail(old(store).mail@, e.email.uuid@) {
                        Some(i) => {
                            &&& final(store).mail@.len() == old(store).mail@.len()
                            &&& final(store).mail@[i] == (crate::db::MailRow {
                                status: false,
                                error_msg: final(store).mail@[i].error_msg,
                                ..old(store).mail@[i]
                            })
                            &&& final(store).mail@[i].error_msg@ == crate::error::spec_from_storage(
                                err,
                            ).spec_message()
                            &&& forall|j: int|
                                0 <= j < old(store).mail@.len() && j != i
                                    ==> final(store).mail@[j] == old(store).mail@[j]
                        },
                        None => final(store).mail == old(store).mail,
                    }
                },
                Ok(u) => {
                    &&& r matches Ok(res) && res.success && (res.message matches Some(m) && m@
                        == spec_msg_attachment_info(
                        req.name@,
                        e.email.recipients.deep_view()[0],
                        req.size as nat,
                        req.mail_id@,
                    ))
                    &&& (r matches Ok(res) ==> (terminal ==> res.storage_backend == Some(
                        e.address.storage_backend,
                    ) && res.num_attachments == Some(e.email.num_attachments as i32)))
                    &&& (r matches Ok(res) ==> (!terminal ==> res.storage_backend is None
                        && res.num_attachments is None))
                    &&& final(store).mail == old(store).mail
                    &&& (terminal ==> !final(cache).spec_contains(req.mail_id@))
                    &&& (terminal ==> final(cache).num_processed == old(cache).num_processed + 1
                        && final(cache).avg_processing_time == old(cache).avg_processing_time + ((
                    now - e.insertion_time) as u64) / ((old(cache).num_processed + 1) as u64))
                    &&& (!terminal ==> (final(cache).spec_get(req.mail_id@) matches Some(e2) && {
                        &&& e2.attachments_processed@ == e.attachments_processed@.push(req.index)
                        &&& e2.email == e.email
                        &&& e2.address == e.address
                    }))
                    &&& (!terminal ==> final(cache).num_processed == old(cache).num_processed
                        && final(cache).avg_processing_time == old(cache).avg_processing_time)
                    &&& final(store).addresses@.len() == old(store).addresses@.len()
                    &&& forall|j: int|
                        0 <= j < old(store).addresses@.len() ==> final(store).addresses@[j] == if (
                        #[trigger] old(store).addresses@[j].address@) == e.address.address@ {
                            (Address {
                                storage_used: (old(store).addresses@[j].storage_used
                                    + req.size) as i64,
                                ..old(store).addresses@[j]
                            })
                        } else {
                            old(store).addresses@[j]
                        }
                },
            }
        }),
{
    let ghost e = old(cache).spec_get(req.mail_id@)->0;
    let (uuid, recipient, num_attachments, processed_len, address) = {
        let entry = match cache.get(req.mail_id.as_str()) {
            None => {
                return vstd::pervasive::unreached();
            },
            Some(en) => en,
        };
        proof {
            assert(entry.email.recipients.deep_view()[0] == entry.email.recipients@[0]@);
        }
        (
            entry.email.uuid.clone(),
            entry.email.recipients[0].clone(),
            entry.email.num_attachments,
            entry.attachments_processed.len(),
            entry.address.duplicate(),
        )
    };
    match upload {
        Err(err) => {
            let converted = Error::from_storage(err);
            let msg = converted.message();
            proof {
                crate::db::lemma_find_mail_ensures(store.mail@, e.email.uuid@);
                assert(uuid@ == e.email.uuid@);
            }
            store.update_email(uuid.as_str(), false, Some(msg.as_str()));
            Err(converted)
        },
        Ok(_) => {
            let terminal = num_attachments == 0 || processed_len >= (num_attachments as usize)
                - 1;
            if !terminal {
                cache.push_processed(req.mail_id.as_str(), req.index, now);
            } else {
                cache.remove(req.mail_id.as_str(), now);
            }
            let ghost pre = store.addresses@;
            proof {
                assert(address.address@ == e.address.address@);
            }
            address.update_storage_used(req.size, false, store);
            proof {
                assert(pre == old(store).addresses@);
                assert forall|j: int| 0 <= j < store.addresses@.len() implies (
                #[trigger] store.addresses@[j]).wf() by {
                    assert(pre[j].address@ == old(store).addresses@[j].address@);
                    assert(old(store).addresses@[j].wf());
                    assert(old(store).addresses@[j].storage_used <= 0x4000000000000000);
                }
                assert forall|j: int, k: int| 0 <= j < k < store.addresses@.len() implies (
                #[trigger] store.addresses@[j].address@) != (
                #[trigger] store.addresses@[k].address@) by {
                    assert(store.addresses@[j].address@ == old(store).addresses@[j].address@);
                    assert(store.addresses@[k].address@ == old(store).addresses@[k].address@);
                }
                assert forall|j: int|
                    0 <= j < old(store).addresses@.len() implies (
                #[trigger] store.addresses@[j]).address@ == old(store).addresses@[j].address@
                    && store.addresses@[j].storage_used >= old(store).addresses@[j].storage_used
                    && store.addresses@[j].num_received >= old(
                    store,
                ).addresses@[j].num_received by {
                    assert(pre[j].address@ == old(store).addresses@[j].address@);
                    assert(old(store).addresses@[j].storage_used <= 0x4000000000000000);
                }
                assert(spec_counters_nondecreasing(old(store).addresses@, store.addresses@));
                assert forall|j: int|
                    0 <= j < old(store).addresses@.len() implies store.addresses@[j] == if (
                #[trigger] old(store).addresses@[j].address@) == e.address.address@ {
                    (Address {
                        storage_used: (old(store).addresses@[j].storage_used + req.size) as i64,
                        ..old(store).addresses@[j]
                    })
                } else {
                    old(store).addresses@[j]
                } by {
                    assert(pre[j].address@ == old(store).addresses@[j].address@);
                }
            }
            let m = msg_attachment_info(
                req.name.as_str(),
                recipient.as_str(),
                req.size,
                req.mail_id.as_str(),
            );
            if terminal {
                Ok(
                    ServerResult {
                        success: true,
                        message: Some(m),
                        storage_backend: Some(address.storage_backend),
                        num_attachments: Some(num_attachments as i32),
                        error: None,
                    },
                )
            } else {
                Ok(
                    ServerResult {
                        success: true,
                        message: Some(m),
                        storage_backend: None,
                        num_attachments: None,
                        error: None,
                    },
                )
            }
        },
    }
}

/// A message whose session is already present is a cache hit: the
/// identical re-POST of an accepted message succeeds again and, by
/// `handle_email`'s contract, changes neither the store nor the cache.
pub proof fn lemma_retry_hits_session(store: Store, cache: Cache, email: Email)
    requires
        email.num_attachments > 0,
        cache.spec_contains(email.uuid@),
    ensures
        spec_email_verdict(store, cache, email) is CacheHit,
{
}

/// No session, no upload: an attachment request for a message without a
/// session never yields an upload command, so a message rejected by the
/// quota gates (which leave no session behind) can never reach the backend.
pub proof fn lemma_no_session_no_upload(cache: Cache, req: AttachmentRequest)
    requires
        !cache.spec_contains(req.mail_id@),
    ensures
        spec_attachment_verdict(cache, req) is NoSession,
{
}

/// An attachment index recorded in its session is acknowledged, never
/// uploaded or charged again: the re-POST of an uploaded attachment is
/// idempotent.
pub proof fn lemma_reupload_acknowledged(cache: Cache, req: AttachmentRequest)
    requires
        cache.spec_get(req.mail_id@) matches Some(e) && e.attachments_processed@.contains(
            req.index,
        ),
    ensures
        spec_attachment_verdict(cache, req) is AlreadyDone,
{
}

/// What a quota rejection leaves behind: the mail row recorded as failed
/// under the rejection text, counters untouched, one warning logged, and no
/// session.
/// The mail-table frame of one request: only the row keyed by `uuid` is
/// touched — one row is added exactly when none was keyed by `uuid`
/// before, and every row under another UUID stands exactly where it stood.
pub open spec fn spec_mail_frame(
    mail0: Seq<crate::db::MailRow>,
    mail1: Seq<crate::db::MailRow>,
    uuid: Seq<char>,
) -> bool {
    &&& mail1.len() == (match crate::db::spec_find_mail(mail0, uuid) {
        Some(_) => mail0.len() as int,
        None => (mail0.len() + 1) as int,
    })
    &&& forall|j: int|
        0 <= j < mail1.len() && (#[trigger] mail1[j].uuid@) != uuid ==> j < mail0.len()
            && mail1[j] == mail0[j]
}

pub open spec fn spec_email_failed(
    store0: Store,
    store1: Store,
    cache0: Cache,
    cache1: Cache,
    email: Email,
    msg: Seq<char>,
) -> bool {
    &&& store1.addresses == store0.addresses
    &&& crate::db::spec_mail_row_of(store1.mail@, email.uuid@) matches Some(row) && !row.status
        && row.error_msg@ == msg && row.num_attachments == email.num_attachments
        && row.total_size == email.size
    &&& spec_mail_frame(store0.mail@, store1.mail@, email.uuid@)
    &&& store1.logs@.len() == store0.logs@.len() + 1
    &&& store1.logs@.last().level is Warning
    &&& store1.logs@.last().mail_id matches Some(u) && u@ == email.uuid@
    &&& store1.logs@.last().msg@ == msg
    &&& cache1 == cache0
}

} // verus!

