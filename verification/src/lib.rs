//! Inbound-mail processing core: a typed MIME model with deterministic
//! message identity, per-recipient policy and quota checking over a modelled
//! relational store, a message-session cache that makes the multi-request
//! attachment handoff idempotent, the storage-backend selection rules, the
//! error taxonomy with its HTTP and SMTP status mappings, and the
//! filter-side decision logic that turns server outcomes into MTA exit
//! codes.

pub mod api;
pub mod cache;
pub mod config;
pub mod db;
pub mod email;
pub mod filter;
pub mod error;
pub mod server;
pub mod storage;
pub mod text;

pub use error::Error;

use vstd::prelude::*;

verus! {

/// Greeting served at the root endpoint.
pub fn welcome_message() -> (r: String)
    ensures
        r@ == "Welcome to Vaulty!"@,
{
    let s: &str = "Welcome to Vaulty!";
    s.to_owned()
}

/// Decides where a message's attachments are stored: the recipient's
/// backend, credentials and base path, taken from the resolved address row.
pub struct EmailHandler {
    pub storage_token: String,
    pub storage_backend: storage::Backend,
    pub storage_path: String,
}

impl EmailHandler {
    pub open spec fn spec_token(self) -> Seq<char> {
        self.storage_token@
    }

    pub open spec fn spec_backend(self) -> storage::Backend {
        self.storage_backend
    }

    pub open spec fn spec_path(self) -> Seq<char> {
        self.storage_path@
    }

    /// A handler for one recipient's storage settings.
    pub fn new(token: &str, backend: &storage::Backend, path: &str) -> (r: EmailHandler)
        ensures
            r.spec_token() == token@,
            r.spec_backend() == *backend,
            r.spec_path() == path@,
    {
        EmailHandler {
            storage_token: token.to_owned(),
            storage_backend: *backend,
            storage_path: path.to_owned(),
        }
    }

    /// Where an attachment must be uploaded: under `{path}/{name}` on the
    /// reference backend. The other backends are placeholders that succeed
    /// without an upload, and a message without an attachment needs none,
    /// so both yield `None`.
    pub fn handle(&self, has_attachment: bool, attachment_name: &str) -> (r: Option<String>)
        ensures
            match r {
                Some(p) => has_attachment && self.spec_backend() is Dropbox && p@
                    == self.spec_path() + "/"@ + attachment_name@,
                None => !has_attachment || !(self.spec_backend() is Dropbox),
            },
    {
        if !has_attachment {
            return None;
        }
        match self.storage_backend {
            storage::Backend::Dropbox => {
                let mut p = self.storage_path.clone();
                p.append("/");
                p.append(attachment_name);
                Some(p)
            },
            storage::Backend::Gdrive => None,
            storage::Backend::S3 => None,
        }
    }
}

} // verus!
