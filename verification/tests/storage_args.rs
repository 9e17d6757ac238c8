//! The storage backend's pure pieces against the real libraries: the
//! request-argument JSON against the JSON library's own serialisation, the
//! endpoint URLs, the status mapping, and the backend-name coercion.

use vaulty::storage::{
    build_endpoint_url, known_backend_name, map_status, path_args, search_args, upload_args,
    Backend, Endpoint, Error,
};

#[test]
fn upload_args_match_json_library() {
    for path in [
        "/user/path/pic.png",
        "/with \"quotes\" and \\backslash",
        "/tab\tnewline\nreturn\rbell\u{7}",
        "/unicode-ünïcødé",
        "",
    ] {
        let mut map = serde_json::Map::new();
        map.insert("path".to_string(), serde_json::Value::String(path.to_string()));
        map.insert("autorename".to_string(), serde_json::Value::Bool(true));
        let expected = serde_json::Value::Object(map).to_string();
        assert_eq!(upload_args(path), expected);
    }
}

#[test]
fn path_args_match_json_library() {
    let mut map = serde_json::Map::new();
    map.insert("path".to_string(), serde_json::Value::String("/abcde".to_string()));
    let expected = serde_json::Value::Object(map).to_string();
    assert_eq!(path_args("/abcde"), expected);
}

#[test]
fn search_args_match_json_library() {
    let mut map = serde_json::Map::new();
    map.insert("path".to_string(), serde_json::Value::String("/vaulty/search1".to_string()));
    map.insert("query".to_string(), serde_json::Value::String("test".to_string()));
    let expected = serde_json::Value::Object(map).to_string();
    assert_eq!(search_args("/vaulty/search1", "test"), expected);
}

#[test]
fn endpoint_urls() {
    assert_eq!(
        build_endpoint_url(Endpoint::ListFolder),
        "https://api.dropboxapi.com/2/files/list_folder"
    );
    assert_eq!(
        build_endpoint_url(Endpoint::CreateFolder),
        "https://api.dropboxapi.com/2/files/create_folder_v2"
    );
    assert_eq!(
        build_endpoint_url(Endpoint::FileUpload),
        "https://content.dropboxapi.com/2/files/upload"
    );
    assert_eq!(
        build_endpoint_url(Endpoint::Search),
        "https://api.dropboxapi.com/2/files/search"
    );
}

#[test]
fn status_mapping() {
    assert!(map_status(200, String::new()).is_ok());
    assert!(map_status(302, String::new()).is_ok());
    assert!(matches!(map_status(400, "m".to_string()), Err(Error::BadInput(_))));
    assert!(matches!(map_status(403, "m".to_string()), Err(Error::TokenExpired(_))));
    assert!(matches!(map_status(409, "m".to_string()), Err(Error::BadEndpoint(_))));
    assert!(matches!(map_status(429, "m".to_string()), Err(Error::RateLimited(_))));
    assert!(matches!(map_status(404, "m".to_string()), Err(Error::Internal(_))));
    assert!(matches!(map_status(500, "m".to_string()), Err(Error::Internal(_))));
}

#[test]
fn backend_coercion() {
    assert!(matches!(Backend::from_name("dropbox"), Backend::Dropbox));
    assert!(matches!(Backend::from_name("gdrive"), Backend::Gdrive));
    assert!(matches!(Backend::from_name("s3"), Backend::S3));
    // Unknown names fall back to the default backend.
    assert!(matches!(Backend::from_name("tape-robot"), Backend::Dropbox));
    assert!(matches!(Backend::from_name("Dropbox"), Backend::Dropbox));
}

#[test]
fn unknown_backend_names_are_flagged() {
    assert!(known_backend_name("dropbox"));
    assert!(known_backend_name("gdrive"));
    assert!(known_backend_name("s3"));
    // These coerce to the default backend and warrant a warning.
    assert!(!known_backend_name("tape-robot"));
    assert!(!known_backend_name("Dropbox"));
    assert!(!known_backend_name(""));
}

#[test]
fn backend_names() {
    assert_eq!(Backend::Dropbox.name(), "Dropbox");
    assert_eq!(Backend::Gdrive.name(), "GDrive");
    assert_eq!(Backend::S3.name(), "S3");
}

#[test]
fn storage_error_messages() {
    assert_eq!(Error::RequestTimeout.message(), "RequestTimeout");
    assert_eq!(Error::RequestError("boom".to_string()).message(), "RequestError: boom");
    assert_eq!(Error::Internal("x".to_string()).message(), "Internal Error");
}

#[test]
fn handler_plans_uploads_only_for_the_reference_backend() {
    let h = vaulty::EmailHandler::new("SECRET-REDACTED", &Backend::Dropbox, "/base");
    assert_eq!(h.handle(true, "a.txt").as_deref(), Some("/base/a.txt"));
    assert_eq!(h.handle(false, "a.txt"), None);
    let h = vaulty::EmailHandler::new("SECRET-REDACTED", &Backend::Gdrive, "/base");
    assert_eq!(h.handle(true, "a.txt"), None);
    let h = vaulty::EmailHandler::new("SECRET-REDACTED", &Backend::S3, "/base");
    assert_eq!(h.handle(true, "a.txt"), None);
}
