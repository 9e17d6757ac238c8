//! Storage backends: the closed set of supported providers, the storage
//! error taxonomy, and the pure parts of the Dropbox-style reference
//! backend — endpoint URLs, request-argument JSON, and the mapping from
//! HTTP status codes to storage errors. The HTTP calls themselves live
//! outside the library and consume the values built here.

use vstd::prelude::*;

use crate::text;

verus! {

/// The closed set of supported storage backends.
#[derive(Clone, Copy, PartialEq, Eq, Structural, Debug)]
pub enum Backend {
    Dropbox,
    Gdrive,
    S3,
}

/// How a database string coerces into a backend: unknown names fall back
/// to the default so that stored values stay forward-compatible.
pub open spec fn spec_backend_of(s: Seq<char>) -> Backend {
    if s == "dropbox"@ {
        Backend::Dropbox
    } else if s == "gdrive"@ {
        Backend::Gdrive
    } else if s == "s3"@ {
        Backend::S3
    } else {
        Backend::Dropbox
    }
}

/// The display name of each backend.
pub open spec fn spec_backend_name(b: Backend) -> Seq<char> {
    match b {
        Backend::Dropbox => "Dropbox"@,
        Backend::Gdrive => "GDrive"@,
        Backend::S3 => "S3"@,
    }
}

/// Whether a stored backend name is one the crate knows. A name that is
/// not still coerces to the default backend, but the coercion warrants a
/// warning in the log.
pub open spec fn spec_known_backend_name(s: Seq<char>) -> bool {
    s == "dropbox"@ || s == "gdrive"@ || s == "s3"@
}

/// Decide whether a stored backend name is known; the caller logs a
/// warning before coercing an unknown one.
pub fn known_backend_name(s: &str) -> (r: bool)
    ensures
        r == spec_known_backend_name(s@),
{
    text::str_eq(s, "dropbox") || text::str_eq(s, "gdrive") || text::str_eq(s, "s3")
}

impl Backend {
    /// Coerce a stored backend name; unknown names fall back to the
    /// default backend (see [`known_backend_name`] for the warning the
    /// fallback warrants).
    pub fn from_name(s: &str) -> (r: Backend)
        ensures
            r == spec_backend_of(s@),
            !spec_known_backend_name(s@) ==> r is Dropbox,
    {
        if text::str_eq(s, "dropbox") {
            Backend::Dropbox
        } else if text::str_eq(s, "gdrive") {
            Backend::Gdrive
        } else if text::str_eq(s, "s3") {
            Backend::S3
        } else {
            Backend::Dropbox
        }
    }

    /// Human-readable backend name.
    pub fn name(&self) -> (r: String)
        ensures
            r@ == spec_backend_name(*self),
    {
        match self {
            Backend::Dropbox => String::from_str("Dropbox"),
            Backend::Gdrive => String::from_str("GDrive"),
            Backend::S3 => String::from_str("S3"),
        }
    }
}

/// Error type for storage backends. Each variant can carry a message for
/// logging purposes.
#[derive(Debug)]
pub enum Error {
    UrlParseError(String),
    RequestTimeout,
    RequestError(String),
    JsonParseError(String),
    BadInput(String),
    BadEndpoint(String),
    TokenExpired(String),
    RateLimited(String),
    Internal(String),
}

impl Error {
    /// An equal copy of this error.
    pub fn duplicate(&self) -> (r: Error)
        ensures
            r == *self,
    {
        match self {
            Error::UrlParseError(m) => Error::UrlParseError(m.clone()),
            Error::RequestTimeout => Error::RequestTimeout,
            Error::RequestError(m) => Error::RequestError(m.clone()),
            Error::JsonParseError(m) => Error::JsonParseError(m.clone()),
            Error::BadInput(m) => Error::BadInput(m.clone()),
            Error::BadEndpoint(m) => Error::BadEndpoint(m.clone()),
            Error::TokenExpired(m) => Error::TokenExpired(m.clone()),
            Error::RateLimited(m) => Error::RateLimited(m.clone()),
            Error::Internal(m) => Error::Internal(m.clone()),
        }
    }

    /// Short display text of this error.
    pub open spec fn spec_message(self) -> Seq<char> {
        match self {
            Error::UrlParseError(_) => "UrlParseError"@,
            Error::RequestTimeout => "RequestTimeout"@,
            Error::RequestError(m) => "RequestError: "@ + m@,
            Error::JsonParseError(m) => "JsonParseError: "@ + m@,
            Error::BadInput(_) => "BadInput"@,
            Error::BadEndpoint(_) => "BadEndpoint"@,
            Error::TokenExpired(_) => "TokenExpired"@,
            Error::RateLimited(_) => "RateLimited"@,
            Error::Internal(_) => "Internal Error"@,
        }
    }

    /// Short display text of this error, as carried into logs and replies.
    pub fn message(&self) -> (r: String)
        ensures
            r@ == self.spec_message(),
    {
        match self {
            Error::UrlParseError(_) => String::from_str("UrlParseError"),
            Error::RequestTimeout => String::from_str("RequestTimeout"),
            Error::RequestError(m) => String::from_str("RequestError: ").concat(m.as_str()),
            Error::JsonParseError(m) => String::from_str("JsonParseError: ").concat(m.as_str()),
            Error::BadInput(_) => String::from_str("BadInput"),
            Error::BadEndpoint(_) => String::from_str("BadEndpoint"),
            Error::TokenExpired(_) => String::from_str("TokenExpired"),
            Error::RateLimited(_) => String::from_str("RateLimited"),
            Error::Internal(_) => String::from_str("Internal Error"),
        }
    }
}

/// Map a Dropbox-style HTTP response status to a storage error: `400` is
/// bad input, `403` an expired token, `409` a bad endpoint, `429` rate
/// limiting, any other client or server error is internal, and everything
/// else is success.
pub fn map_status(status: u16, msg: String) -> (r: Result<(), Error>)
    ensures
        r is Ok <==> !(400 <= status < 600),
        status == 400 ==> r == Result::<(), Error>::Err(Error::BadInput(msg)),
        status == 403 ==> r == Result::<(), Error>::Err(Error::TokenExpired(msg)),
        status == 409 ==> r == Result::<(), Error>::Err(Error::BadEndpoint(msg)),
        status == 429 ==> r == Result::<(), Error>::Err(Error::RateLimited(msg)),
        400 <= status < 600 && status != 400 && status != 403 && status != 409 && status != 429
            ==> r == Result::<(), Error>::Err(Error::Internal(msg)),
{
    if status < 400 || status >= 600 {
        Ok(())
    } else if status == 400 {
        Err(Error::BadInput(msg))
    } else if status == 403 {
        Err(Error::TokenExpired(msg))
    } else if status == 409 {
        Err(Error::BadEndpoint(msg))
    } else if status == 429 {
        Err(Error::RateLimited(msg))
    } else {
        Err(Error::Internal(msg))
    }
}

/// The Dropbox-style API endpoints the backend talks to.
pub enum Endpoint {
    ListFolder,
    CreateFolder,
    FileUpload,
    Search,
}

/// The URL of each endpoint: metadata calls go to the API host, uploads to
/// the content host.
pub open spec fn spec_endpoint_url(e: Endpoint) -> Seq<char> {
    match e {
        Endpoint::ListFolder => "https://api.dropboxapi.com/2/files/list_folder"@,
        Endpoint::CreateFolder => "https://api.dropboxapi.com/2/files/create_folder_v2"@,
        Endpoint::FileUpload => "https://content.dropboxapi.com/2/files/upload"@,
        Endpoint::Search => "https://api.dropboxapi.com/2/files/search"@,
    }
}

/// Build the URL for an endpoint.
pub fn build_endpoint_url(endpoint: Endpoint) -> (r: String)
    ensures
        r@ == spec_endpoint_url(endpoint),
{
    match endpoint {
        Endpoint::ListFolder => String::from_str("https://api.dropboxapi.com/2/files/list_folder"),
        Endpoint::CreateFolder => String::from_str(
            "https://api.dropboxapi.com/2/files/create_folder_v2",
        ),
        Endpoint::FileUpload => String::from_str("https://content.dropboxapi.com/2/files/upload"),
        Endpoint::Search => String::from_str("https://api.dropboxapi.com/2/files/search"),
    }
}

/// One entry of a folder listing or search result: a folder or a file,
/// with the metadata the backend reports for it.
pub enum SearchResultEntry {
    Folder { name: String, path_lower: String, path_display: String, id: String },
    File {
        name: String,
        id: String,
        size: usize,
        server_modified: String,
        path_lower: String,
        path_display: String,
        content_hash: String,
    },
}

/// One search match, wrapping its entry.
pub struct SearchResultSingle {
    pub metadata: SearchResultEntry,
}

/// The response to a search: the matches and whether more remain.
pub struct SearchResult {
    pub matches: Vec<SearchResultSingle>,
    pub more: bool,
}

/// The response to a folder listing: the entries and whether more remain.
pub struct ListFolderResult {
    pub entries: Vec<SearchResultEntry>,
    pub has_more: bool,
}

/// The response to creating a folder.
pub struct CreateFolderResult {
    pub name: String,
}

/// The response to a completed file upload.
pub struct FileUploadResult {
    pub name: String,
    pub id: String,
    pub size: usize,
    pub server_modified: String,
    pub path_lower: String,
    pub path_display: String,
    pub content_hash: String,
}

/// The hexadecimal digit character for `d`, lowercase.
pub open spec fn spec_hex_digit(d: nat) -> char {
    if d < 10 {
        ((d + 0x30) as u8) as char
    } else {
        ((d - 10 + 0x61) as u8) as char
    }
}

/// How one character is written inside a JSON string: quotes and
/// backslashes are escaped, the named control characters get their short
/// escapes, other control characters a `\u00..` escape, and everything
/// else stands as itself.
pub open spec fn spec_json_escape_char(c: char) -> Seq<char> {
    if c == '"' {
        seq!['\\', '"']
    } else if c == '\\' {
        seq!['\\', '\\']
    } else if c as u32 == 8 {
        seq!['\\', 'b']
    } else if c == '\t' {
        seq!['\\', 't']
    } else if c == '\n' {
        seq!['\\', 'n']
    } else if c as u32 == 12 {
        seq!['\\', 'f']
    } else if c == '\r' {
        seq!['\\', 'r']
    } else if (c as u32) < 32 {
        seq!['\\', 'u', '0', '0', spec_hex_digit((c as nat) / 16), spec_hex_digit((c as nat) % 16)]
    } else {
        seq![c]
    }
}

/// The characters of `s` written inside a JSON string.
pub open spec fn spec_json_escape(s: Seq<char>) -> Seq<char>
    decreases s.len(),
{
    if s.len() == 0 {
        Seq::empty()
    } else {
        spec_json_escape(s.drop_last()) + spec_json_escape_char(s.last())
    }
}

fn push_json_escape_char(out: &mut String, c: char)
    ensures
        final(out)@ == old(out)@ + spec_json_escape_char(c),
{
    if c == '"' {
        out.push('\\');
        out.push('"');
    } else if c == '\\' {
        out.push('\\');
        out.push('\\');
    } else if c as u32 == 8 {
        out.push('\\');
        out.push('b');
    } else if c == '\t' {
        out.push('\\');
        out.push('t');
    } else if c == '\n' {
        out.push('\\');
        out.push('n');
    } else if c as u32 == 12 {
        out.push('\\');
        out.push('f');
    } else if c == '\r' {
        out.push('\\');
        out.push('r');
    } else if (c as u32) < 32 {
        out.push('\\');
        out.push('u');
        out.push('0');
        out.push('0');
        let b: u8 = c as u8;
        let hi: u8 = b / 16;
        let lo: u8 = b % 16;
        out.push(if hi < 10 {
            (hi + 0x30) as char
        } else {
            (hi - 10 + 0x61) as char
        });
        out.push(if lo < 10 {
            (lo + 0x30) as char
        } else {
            (lo - 10 + 0x61) as char
        });
    } else {
        out.push(c);
    }
    assert(final(out)@ =~= old(out)@ + spec_json_escape_char(c));
}

/// Append the characters of `s`, escaped for use inside a JSON string.
fn push_json_escaped(out: &mut String, s: &str)
    ensures
        final(out)@ == old(out)@ + spec_json_escape(s@),
{
    let n: usize = s.unicode_len();
    let mut i: usize = 0;
    while i < n
        invariant
            n == s@.len(),
            i <= n,
            out@ == old(out)@ + spec_json_escape(s@.subrange(0, i as int)),
        decreases n - i,
    {
        let c = s.get_char(i);
        push_json_escape_char(out, c);
        proof {
            assert(s@.subrange(0, i + 1).drop_last() == s@.subrange(0, i as int));
            assert(s@.subrange(0, i + 1).last() == s@[i as int]);
        }
        i = i + 1;
    }
    proof {
        assert(s@.subrange(0, n as int) == s@);
    }
}

/// The request-argument JSON for a streamed file upload: the target path,
/// with auto-rename so a duplicate filename gets a fresh suffixed name
/// rather than failing.
pub open spec fn spec_upload_args(path: Seq<char>) -> Seq<char> {
    "{\"autorename\":true,\"path\":\""@ + spec_json_escape(path) + "\"}"@
}

/// Build the upload request arguments for `path`.
pub fn upload_args(path: &str) -> (r: String)
    ensures
        r@ == spec_upload_args(path@),
{
    let mut out = String::from_str("{\"autorename\":true,\"path\":\"");
    push_json_escaped(&mut out, path);
    out.append("\"}");
    out
}

/// The request body naming one path, as used to list or create a folder.
pub open spec fn spec_path_args(path: Seq<char>) -> Seq<char> {
    "{\"path\":\""@ + spec_json_escape(path) + "\"}"@
}

/// Build the request body naming `path`.
pub fn path_args(path: &str) -> (r: String)
    ensures
        r@ == spec_path_args(path@),
{
    let mut out = String::from_str("{\"path\":\"");
    push_json_escaped(&mut out, path);
    out.append("\"}");
    out
}

/// The request body for a search: the path to search under and the query.
pub open spec fn spec_search_args(path: Seq<char>, query: Seq<char>) -> Seq<char> {
    "{\"path\":\""@ + spec_json_escape(path) + "\",\"query\":\""@ + spec_json_escape(query)
        + "\"}"@
}

/// Build the request body for a search under `path`.
pub fn search_args(path: &str, query: &str) -> (r: String)
    ensures
        r@ == spec_search_args(path@, query@),
{
    let mut out = String::from_str("{\"path\":\"");
    push_json_escaped(&mut out, path);
    out.append("\",\"query\":\"");
    push_json_escaped(&mut out, query);
    out.append("\"}");
    out
}

} // verus!
