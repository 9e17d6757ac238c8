//! Server configuration: the recognised options with their defaults,
//! overlaid from a list of key/value settings. Reading the settings file
//! and the environment happens outside the library; the merge handed in is
//! a plain list of pairs.

use vstd::prelude::*;

use crate::text;

verus! {

/// Default maximum message size accepted by the `email` endpoint, in bytes.
pub const MAX_EMAIL_SIZE: u64 = 5242880;

/// Default maximum attachment size accepted by the `attachment` endpoint,
/// in bytes.
pub const MAX_ATTACHMENT_SIZE: u64 = 20971520;

/// The recognised configuration, loaded once at startup.
pub struct Config {
    /// Port the server listens on.
    pub port: u16,
    /// Key for the legacy webhook receiver, when enabled.
    pub mailgun_key: Option<String>,
    /// Largest message body accepted, in bytes.
    pub max_email_size: u64,
    /// Largest attachment accepted, in bytes.
    pub max_attachment_size: u64,
    /// HTTP Basic auth credentials.
    pub auth_user: String,
    pub auth_pass: String,
    /// Database connection settings.
    pub db_host: String,
    pub db_name: String,
    pub db_user: String,
    pub db_password: Option<String>,
}

/// The value of the last setting named `key`, later entries overriding
/// earlier ones.
pub open spec fn spec_setting(settings: Seq<(Seq<char>, Seq<char>)>, key: Seq<char>) -> Option<
    Seq<char>,
>
    decreases settings.len(),
{
    if settings.len() == 0 {
        None
    } else if settings.last().0 == key {
        Some(settings.last().1)
    } else {
        spec_setting(settings.drop_last(), key)
    }
}

fn get_setting(settings: &Vec<(String, String)>, key: &str) -> (r: Option<String>)
    ensures
        match r {
            Some(v) => spec_setting(settings.deep_view(), key@) == Some(v@),
            None => spec_setting(settings.deep_view(), key@) is None,
        },
{
    let mut i: usize = settings.len();
    proof {
        assert(settings.deep_view().subrange(0, settings@.len() as int) == settings.deep_view());
    }
    while i > 0
        invariant
            i <= settings@.len(),
            spec_setting(settings.deep_view(), key@) == spec_setting(
                settings.deep_view().subrange(0, i as int),
                key@,
            ),
        decreases i,
    {
        i = i - 1;
        proof {
            let dv = settings.deep_view();
            assert(dv.subrange(0, i + 1).last() == dv[i as int]);
            assert(dv.subrange(0, i + 1).drop_last() == dv.subrange(0, i as int));
            assert(dv[i as int] == (settings@[i as int].0@, settings@[i as int].1@));
        }
        if text::str_eq(settings[i].0.as_str(), key) {
            return Some(settings[i].1.clone());
        }
    }
    proof {
        assert(settings.deep_view().subrange(0, 0) =~= Seq::<(Seq<char>, Seq<char>)>::empty());
    }
    None
}

/// The numeric value of a setting, when present and parseable; the default
/// otherwise.
pub open spec fn spec_numeric_setting(
    settings: Seq<(Seq<char>, Seq<char>)>,
    key: Seq<char>,
    default: u64,
) -> u64 {
    match spec_setting(settings, key) {
        Some(v) => if text::spec_all_digits(v) && text::spec_dec_value(v) <= u64::MAX {
            text::spec_dec_value(v) as u64
        } else {
            default
        },
        None => default,
    }
}

/// The textual value of a setting, or its default.
pub open spec fn spec_text_setting(
    settings: Seq<(Seq<char>, Seq<char>)>,
    key: Seq<char>,
    default: Seq<char>,
) -> Seq<char> {
    match spec_setting(settings, key) {
        Some(v) => v,
        None => default,
    }
}

fn numeric_setting(settings: &Vec<(String, String)>, key: &str, default: u64) -> (r: u64)
    ensures
        r == spec_numeric_setting(settings.deep_view(), key@, default),
{
    match get_setting(settings, key) {
        Some(v) => match text::parse_u64(v.as_str()) {
            Some(n) => n,
            None => default,
        },
        None => default,
    }
}

fn text_setting(settings: &Vec<(String, String)>, key: &str, default: &str) -> (r: String)
    ensures
        r@ == spec_text_setting(settings.deep_view(), key@, default@),
{
    match get_setting(settings, key) {
        Some(v) => v,
        None => default.to_owned(),
    }
}

impl Config {
    /// Build the configuration from merged key/value settings, falling back
    /// to the documented default for every unrecognised or missing value.
    pub fn load(settings: &Vec<(String, String)>) -> (r: Config)
        ensures
            ({
                let s = settings.deep_view();
                &&& r.port == (match spec_setting(s, "port"@) {
                    Some(v) => if text::spec_all_digits(v) && text::spec_dec_value(v) <= u16::MAX {
                        text::spec_dec_value(v) as u16
                    } else {
                        7777u16
                    },
                    None => 7777u16,
                })
                &&& (match r.mailgun_key {
                    Some(k) => spec_setting(s, "mailgun_key"@) == Some(k@),
                    None => spec_setting(s, "mailgun_key"@) is None,
                })
                &&& r.max_email_size == spec_numeric_setting(s, "max_email_size"@, MAX_EMAIL_SIZE)
                &&& r.max_attachment_size == spec_numeric_setting(
                    s,
                    "max_attachment_size"@,
                    MAX_ATTACHMENT_SIZE,
                )
                &&& r.auth_user@ == spec_text_setting(s, "auth_user"@, "admin"@)
                &&& r.auth_pass@ == spec_text_setting(s, "auth_pass"@, "test123"@)
                &&& r.db_host@ == spec_text_setting(s, "db_host"@, "127.0.0.1"@)
                &&& r.db_name@ == spec_text_setting(s, "db_name"@, "vaulty"@)
                &&& r.db_user@ == spec_text_setting(s, "db_user"@, "vaulty"@)
                &&& (match r.db_password {
                    Some(p) => spec_setting(s, "db_password"@) == Some(p@),
                    None => spec_setting(s, "db_password"@) is None,
                })
            }),
    {
        let port: u16 = match get_setting(settings, "port") {
            Some(v) => match text::parse_u64(v.as_str()) {
                Some(n) => if n <= 65535 {
                    n as u16
                } else {
                    7777
                },
                None => 7777,
            },
            None => 7777,
        };
        Config {
            port,
            mailgun_key: get_setting(settings, "mailgun_key"),
            max_email_size: numeric_setting(settings, "max_email_size", MAX_EMAIL_SIZE),
            max_attachment_size: numeric_setting(
                settings,
                "max_attachment_size",
                MAX_ATTACHMENT_SIZE,
            ),
            auth_user: text_setting(settings, "auth_user", "admin"),
            auth_pass: text_setting(settings, "auth_pass", "test123"),
            db_host: text_setting(settings, "db_host", "127.0.0.1"),
            db_name: text_setting(settings, "db_name", "vaulty"),
            db_user: text_setting(settings, "db_user", "vaulty"),
            db_password: get_setting(settings, "db_password"),
        }
    }
}

} // verus!
