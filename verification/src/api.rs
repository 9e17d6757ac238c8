//! The response shared between server and filter: whether the operation
//! succeeded, and on the terminal attachment which backend was used and how
//! many attachments were completed.

use vstd::prelude::*;

use crate::error::Error;
use crate::storage::Backend;

verus! {

/// Response from the server to the filter.
///
/// When a message has attachments, the response to the terminal attachment
/// carries the full information.
pub struct ServerResult {
    pub success: bool,
    pub message: Option<String>,
    pub storage_backend: Option<Backend>,
    pub num_attachments: Option<i32>,
    pub error: Option<Error>,
}

impl ServerResult {
    /// A plain success, with nothing else to report.
    pub fn ok() -> (r: ServerResult)
        ensures
            r.success,
            r.message is None,
            r.storage_backend is None,
            r.num_attachments is None,
            r.error is None,
    {
        ServerResult {
            success: true,
            message: None,
            storage_backend: None,
            num_attachments: None,
            error: None,
        }
    }

    /// A failure carrying its error.
    pub fn failed(error: Error) -> (r: ServerResult)
        ensures
            !r.success,
            r.message is None,
            r.storage_backend is None,
            r.num_attachments is None,
            r.error == Some(error),
    {
        ServerResult {
            success: false,
            message: None,
            storage_backend: None,
            num_attachments: None,
            error: Some(error),
        }
    }
}

} // verus!
