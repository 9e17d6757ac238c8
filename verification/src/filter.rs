//! The MTA-side companion's decision logic: how a server response is
//! interpreted, how an outcome is translated into an SMTP enhanced status
//! code and an MTA exit code, and how the reply mail to the sender is
//! built. The HTTP requests and the SMTP submission around these decisions
//! are plain I/O performed outside the library.

use vstd::prelude::*;

use crate::api::ServerResult;
use crate::email::Email;
use crate::error::Error;
use crate::text;

verus! {

/// MTA exit code for a permanent rejection: the message bounces.
pub const UNAVAILABLE: i32 = 69;

/// MTA exit code for a transient failure: the MTA re-queues and retries.
pub const TEMPFAIL: i32 = 75;

/// What one message's processing came to, seen from the filter.
pub enum FilterError {
    /// The server rejected the message with a policy outcome.
    Server(ServerResult),
    /// A transient failure (a timeout, a lost connection, a server error,
    /// an unreadable response): the MTA re-queues and retries.
    Temporary,
    /// A failure on the filter's own side (the request could not be
    /// produced): permanent, nothing a retry would mend.
    Unexpected,
}

impl FilterError {
    /// User-visible description of this outcome.
    pub open spec fn spec_message(self) -> Seq<char> {
        match self {
            FilterError::Server(result) => match result.error {
                Some(e) => e.spec_message(),
                None => "The server reported a failure without an error."@,
            },
            FilterError::Temporary => "Mail processing failed temporarily."@,
            FilterError::Unexpected => "An unexpected error occurred while processing this email."@,
        }
    }

    /// User-visible description of this outcome.
    pub fn message(&self) -> (r: String)
        ensures
            r@ == self.spec_message(),
    {
        match self {
            FilterError::Server(result) => match &result.error {
                Some(e) => e.message(),
                None => String::from_str("The server reported a failure without an error."),
            },
            FilterError::Temporary => String::from_str("Mail processing failed temporarily."),
            FilterError::Unexpected => String::from_str(
                "An unexpected error occurred while processing this email.",
            ),
        }
    }
}

/// The SMTP enhanced status code reported for a server-side error: bad
/// destination mailbox, mailbox full, delivery not authorized, or trust
/// relationship required; anything else is a generic mailbox trouble.
pub open spec fn spec_smtp_code(e: Error) -> Seq<char> {
    match e {
        Error::InvalidRecipient => "5.1.1"@,
        Error::QuotaExceeded(_) => "5.2.3"@,
        Error::SenderNotWhitelisted { .. } => "5.7.1"@,
        Error::TokenExpired => "5.7.8"@,
        Error::Unauthorized => "5.7.8"@,
        _ => "5.2.0"@,
    }
}

/// Map a server-side error to its SMTP enhanced status code.
pub fn smtp_code(e: &Error) -> (r: String)
    ensures
        r@ == spec_smtp_code(*e),
{
    match e {
        Error::InvalidRecipient => String::from_str("5.1.1"),
        Error::QuotaExceeded(_) => String::from_str("5.2.3"),
        Error::SenderNotWhitelisted { .. } => String::from_str("5.7.1"),
        Error::TokenExpired => String::from_str("5.7.8"),
        Error::Unauthorized => String::from_str("5.7.8"),
        _ => String::from_str("5.2.0"),
    }
}

/// The SMTP status line printed for an outcome, when one is printed at all:
/// a temporary failure prints nothing (the MTA just retries), and a server
/// "failure" carrying no error prints nothing.
pub open spec fn spec_status_line(err: FilterError) -> Option<Seq<char>> {
    match err {
        FilterError::Temporary => None,
        FilterError::Unexpected => Some("5.5.4"@ + ": "@ + err.spec_message()),
        FilterError::Server(result) => match result.error {
            Some(e) => Some(spec_smtp_code(e) + ": "@ + err.spec_message()),
            None => None,
        },
    }
}

/// The MTA exit code for an outcome: a pure function of the server's error
/// (or the transport outcome). Transient failures ask the MTA to retry;
/// everything the user must hear about bounces permanently.
pub open spec fn spec_exit_code(err: FilterError) -> i32 {
    match err {
        FilterError::Temporary => TEMPFAIL,
        FilterError::Unexpected => UNAVAILABLE,
        FilterError::Server(result) => match result.error {
            Some(_) => UNAVAILABLE,
            None => 0,
        },
    }
}

/// The exit code depends only on the error carried by the server's
/// response, never on its other fields.
pub proof fn lemma_exit_code_pure(r1: ServerResult, r2: ServerResult)
    requires
        r1.error == r2.error,
    ensures
        spec_exit_code(FilterError::Server(r1)) == spec_exit_code(FilterError::Server(r2)),
        spec_status_line(FilterError::Server(r1)) == spec_status_line(FilterError::Server(r2)),
{
}

/// Decide the filter's reaction to a failed message: the exit code handed
/// to the MTA and, for permanent rejections, the status line printed for
/// it. A reply to the sender carries the same text.
pub fn reply_error(err: &FilterError) -> (r: (i32, Option<String>))
    ensures
        r.0 == spec_exit_code(*err),
        match r.1 {
            Some(line) => spec_status_line(*err) == Some(line@),
            None => spec_status_line(*err) is None,
        },
{
    match err {
        FilterError::Temporary => (TEMPFAIL, None),
        FilterError::Unexpected => {
            let mut line = String::from_str("5.5.4");
            line.append(": ");
            line.append(err.message().as_str());
            (UNAVAILABLE, Some(line))
        },
        FilterError::Server(result) => match &result.error {
            Some(e) => {
                let mut line = smtp_code(e);
                line.append(": ");
                line.append(err.message().as_str());
                (UNAVAILABLE, Some(line))
            },
            None => (0, None),
        },
    }
}

/// Interpret the server's response to a request: a success status hands
/// back the result; a policy rejection (422) carries the result to reply
/// with; any other status (an auth failure, a missing route, a server
/// error) and any unreadable body are transient — the MTA re-queues the
/// message and the filter retries.
pub fn interpret_response(status: u16, parsed: Option<ServerResult>) -> (r: Result<
    ServerResult,
    FilterError,
>)
    ensures
        match parsed {
            None => r == Result::<ServerResult, FilterError>::Err(FilterError::Temporary),
            Some(result) => {
                if 200 <= status < 300 {
                    r == Result::<ServerResult, FilterError>::Ok(result)
                } else if status == 422 {
                    r == Result::<ServerResult, FilterError>::Err(FilterError::Server(result))
                } else {
                    r == Result::<ServerResult, FilterError>::Err(FilterError::Temporary)
                }
            },
        },
{
    match parsed {
        None => Err(FilterError::Temporary),
        Some(result) => {
            if 200 <= status && status < 300 {
                Ok(result)
            } else if status == 422 {
                Err(FilterError::Server(result))
            } else {
                Err(FilterError::Temporary)
            }
        },
    }
}

/// A reply mail to the sender of a processed message.
pub struct ReplyEmail {
    /// The original sender, who receives the reply.
    pub to: String,
    /// The service's own address.
    pub from: String,
    /// `Re:` and the original subject.
    pub subject: String,
    /// The original Message-ID, in angle brackets.
    pub in_reply_to: String,
    /// Same as `in_reply_to`, threading the reply under the original.
    pub references: String,
    /// The reply text.
    pub text: String,
}

/// The subject of the reply to `mail`.
pub open spec fn spec_reply_subject(mail: Email) -> Seq<char> {
    "Re: "@ + (match mail.subject {
        Some(s) => s@,
        None => "Mail processing failed"@,
    })
}

/// The Message-ID reference of the reply to `mail`, when it has one.
pub open spec fn spec_reply_reference(mail: Email) -> Seq<char> {
    "<"@ + (mail.message_id)->0@ + ">"@
}

/// Build the reply to the sender carrying `body`. A message without a
/// Message-ID gets no reply — there is nothing to thread it under.
pub fn reply(mail: &Email, body: String) -> (r: Option<ReplyEmail>)
    ensures
        match r {
            Some(rep) => {
                &&& mail.message_id is Some
                &&& rep.to@ == mail.sender@
                &&& rep.from@ == "noreply@vaulty.net"@
                &&& rep.subject@ == spec_reply_subject(*mail)
                &&& rep.in_reply_to@ == spec_reply_reference(*mail)
                &&& rep.references@ == spec_reply_reference(*mail)
                &&& rep.text == body
            },
            None => mail.message_id is None,
        },
{
    let message_id = match &mail.message_id {
        None => {
            return None;
        },
        Some(m) => m,
    };
    let mut reference = String::from_str("<");
    reference.append(message_id.as_str());
    reference.append(">");
    let mut subject = String::from_str("Re: ");
    match &mail.subject {
        Some(s) => subject.append(s.as_str()),
        None => subject.append("Mail processing failed"),
    }
    Some(
        ReplyEmail {
            to: mail.sender.clone(),
            from: String::from_str("noreply@vaulty.net"),
            subject,
            in_reply_to: reference.clone(),
            references: reference,
            text: body,
        },
    )
}

/// The reply body announcing a successful upload.
pub open spec fn spec_success_body(count: i32, backend_name: Seq<char>) -> Seq<char> {
    "Vaulty successfully uploaded "@ + text::spec_dec(count as nat) + " attachments to "@
        + backend_name + "!"@
}

/// Build the optional success reply to the sender and the exit code for a
/// fully processed message.
pub fn reply_success(mail: &Email, result: ServerResult) -> (r: (Option<ReplyEmail>, i32))
    requires
        result.num_attachments matches Some(n) && n >= 0,
        result.storage_backend is Some,
    ensures
        r.1 == 0,
        match r.0 {
            Some(rep) => mail.message_id is Some && rep.text@ == spec_success_body(
                (result.num_attachments)->0,
                crate::storage::spec_backend_name((result.storage_backend)->0),
            ),
            None => mail.message_id is None,
        },
{
    let count = match result.num_attachments {
        Some(n) => n,
        None => 0,
    };
    let backend = match result.storage_backend {
        Some(b) => b,
        None => crate::storage::Backend::Dropbox,
    };
    let mut body = String::from_str("Vaulty successfully uploaded ");
    let n = text::u64_to_string(count as u64);
    body.append(n.as_str());
    body.append(" attachments to ");
    body.append(backend.name().as_str());
    body.append("!");
    let rep = reply(mail, body);
    (rep, 0)
}

} // verus!
