//! The error taxonomy carried end-to-end: on the wire, in replies, and in
//! logs. Every failure a request can produce is one of these variants, and
//! each maps to exactly one HTTP status.

use vstd::prelude::*;

use crate::storage;

verus! {

/// All errors the processing core can produce.
#[derive(Debug)]
pub enum Error {
    Generic(String),
    Database(String),
    Storage(storage::Error),
    QuotaExceeded(String),
    TokenExpired,
    InvalidRecipient,
    SenderNotWhitelisted { recipient: String },
    Unauthorized,
    NotFound,
    MissingHeader(String),
}

/// How a storage error surfaces: an expired token becomes its own
/// user-visible variant, everything else is wrapped.
pub open spec fn spec_from_storage(err: storage::Error) -> Error {
    match err {
        storage::Error::TokenExpired(_) => Error::TokenExpired,
        _ => Error::Storage(err),
    }
}

impl Error {
    /// Wrap a storage error, mapping an expired token to its own variant.
    pub fn from_storage(err: storage::Error) -> (r: Error)
        ensures
            r == spec_from_storage(err),
    {
        match err {
            storage::Error::TokenExpired(_) => Error::TokenExpired,
            _ => Error::Storage(err),
        }
    }

    /// An equal copy of this error.
    pub fn duplicate(&self) -> (r: Error)
        ensures
            r == *self,
    {
        match self {
            Error::Generic(m) => Error::Generic(m.clone()),
            Error::Database(m) => Error::Database(m.clone()),
            Error::Storage(e) => Error::Storage(e.duplicate()),
            Error::QuotaExceeded(m) => Error::QuotaExceeded(m.clone()),
            Error::TokenExpired => Error::TokenExpired,
            Error::InvalidRecipient => Error::InvalidRecipient,
            Error::SenderNotWhitelisted { recipient } => Error::SenderNotWhitelisted {
                recipient: recipient.clone(),
            },
            Error::Unauthorized => Error::Unauthorized,
            Error::NotFound => Error::NotFound,
            Error::MissingHeader(m) => Error::MissingHeader(m.clone()),
        }
    }

    /// The HTTP status an error maps to: authentication failures are 401,
    /// a route miss is 404, policy rejections visible to the user are 422,
    /// and internal failures are 500.
    pub open spec fn spec_http_status(self) -> u16 {
        match self {
            Error::Unauthorized => 401,
            Error::MissingHeader(_) => 401,
            Error::NotFound => 404,
            Error::QuotaExceeded(_) => 422,
            Error::TokenExpired => 422,
            Error::InvalidRecipient => 422,
            Error::SenderNotWhitelisted { .. } => 422,
            Error::Generic(_) => 500,
            Error::Database(_) => 500,
            Error::Storage(_) => 500,
        }
    }

    /// Map this error to its HTTP status.
    pub fn http_status(&self) -> (r: u16)
        ensures
            r == self.spec_http_status(),
    {
        match self {
            Error::Unauthorized => 401,
            Error::MissingHeader(_) => 401,
            Error::NotFound => 404,
            Error::QuotaExceeded(_) => 422,
            Error::TokenExpired => 422,
            Error::InvalidRecipient => 422,
            Error::SenderNotWhitelisted { .. } => 422,
            Error::Generic(_) => 500,
            Error::Database(_) => 500,
            Error::Storage(_) => 500,
        }
    }

    /// User-visible description of this error.
    pub open spec fn spec_message(self) -> Seq<char> {
        match self {
            Error::Generic(m) => m@,
            Error::Database(m) => m@,
            Error::Storage(e) => "Storage error: "@ + e.spec_message(),
            Error::QuotaExceeded(m) => m@,
            Error::TokenExpired => "The storage account token has expired for this Vaulty address. Please login to Vaulty to refresh the token."@,
            Error::InvalidRecipient => "None of the recipients of this email are valid Vaulty addresses."@,
            Error::SenderNotWhitelisted { recipient } => "The sender of this email is not on the whitelist for address "@ + recipient@ + "."@,
            Error::Unauthorized => "Access to this endpoint is not authorized."@,
            Error::NotFound => "No such endpoint exists."@,
            Error::MissingHeader(h) => if h@ == "Authorization"@ {
                "This endpoint requires HTTP authorization."@
            } else {
                "The request is missing the following header(s): "@ + h@
            },
        }
    }

    /// User-visible description of this error, as carried into an email
    /// reply.
    pub fn message(&self) -> (r: String)
        ensures
            r@ == self.spec_message(),
    {
        match self {
            Error::Generic(m) => m.clone(),
            Error::Database(m) => m.clone(),
            Error::Storage(e) => String::from_str("Storage error: ").concat(e.message().as_str()),
            Error::QuotaExceeded(m) => m.clone(),
            Error::TokenExpired => String::from_str(
                "The storage account token has expired for this Vaulty address. Please login to Vaulty to refresh the token.",
            ),
            Error::InvalidRecipient => String::from_str(
                "None of the recipients of this email are valid Vaulty addresses.",
            ),
            Error::SenderNotWhitelisted { recipient } => String::from_str(
                "The sender of this email is not on the whitelist for address ",
            ).concat(recipient.as_str()).concat("."),
            Error::Unauthorized => String::from_str("Access to this endpoint is not authorized."),
            Error::NotFound => String::from_str("No such endpoint exists."),
            Error::MissingHeader(h) => {
                if crate::text::str_eq(h.as_str(), "Authorization") {
                    String::from_str("This endpoint requires HTTP authorization.")
                } else {
                    String::from_str("The request is missing the following header(s): ").concat(
                        h.as_str(),
                    )
                }
            },
        }
    }
}

} // verus!
