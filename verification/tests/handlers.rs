use webdav_engine::davhandler::{DavConfig, DavInner};
use webdav_engine::errors::{DavError, FsError, IoErrorKind};
use webdav_engine::handle_mkcol::{MkcolAction, MkcolEvent, MkcolState};
use webdav_engine::response::{error_response, find_bytes, handle, legacy_client, DavResponse};

fn ctx(locks: bool) -> DavInner<u32, u32> {
    let cfg: DavConfig<u32, u32> = DavConfig::new().filesystem(1).strip_prefix("/dav".to_string());
    DavInner::from_config(if locks { cfg.locksystem(2) } else { cfg })
}

fn lines(r: &DavResponse) -> Vec<(String, String)> {
    r.headers
        .iter()
        .map(|h| (String::from_utf8(h.name.clone()).unwrap(), String::from_utf8(h.value.clone()).unwrap()))
        .collect()
}

fn line(n: &str, v: &str) -> (String, String) {
    (n.to_string(), v.to_string())
}

/// Runs a MKCOL up to the point where the directory is to be created.
fn until_create(c: &DavInner<u32, u32>, uri: &[u8]) -> webdav_engine::davpath::DavPath {
    let mut path = c.path(uri);
    let (s, a) = c.handle_mkcol(&mut path, MkcolState::Start, MkcolEvent::Begin);
    assert_eq!(s, MkcolState::Metadata);
    assert!(matches!(a, MkcolAction::FetchMetadata));
    let (s, a) = c.handle_mkcol(&mut path, s, MkcolEvent::Metadata(false));
    assert_eq!(s, MkcolState::Conditional);
    assert!(matches!(a, MkcolAction::Evaluate { exists: false }));
    let (s, a) = c.handle_mkcol(&mut path, s, MkcolEvent::Tokens(Ok(Vec::new())));
    assert_eq!(s, MkcolState::CreateDir);
    assert!(matches!(a, MkcolAction::CreateDir));
    path
}

#[test]
fn mkcol_on_existing_collection_is_405() {
    let c = ctx(false);
    let mut path = until_create(&c, b"/dav/a/");
    let (s, a) = c.handle_mkcol(&mut path, MkcolState::CreateDir, MkcolEvent::Created(Err(FsError::Exists)));
    assert_eq!(s, MkcolState::Done);
    assert!(matches!(a, MkcolAction::Fail(DavError::Status(405))));
}

#[test]
fn mkcol_with_missing_parent_is_409() {
    let c = ctx(false);
    let mut path = until_create(&c, b"/dav/a/b");
    let (s, a) = c.handle_mkcol(&mut path, MkcolState::CreateDir, MkcolEvent::Created(Err(FsError::NotFound)));
    assert_eq!(s, MkcolState::Done);
    assert!(matches!(a, MkcolAction::Fail(DavError::Status(409))));
}

#[test]
fn mkcol_other_backend_error_is_passed_on() {
    let c = ctx(false);
    let mut path = until_create(&c, b"/dav/a/b");
    let (_, a) = c.handle_mkcol(&mut path, MkcolState::CreateDir, MkcolEvent::Created(Err(FsError::Forbidden)));
    match a {
        MkcolAction::Fail(e) => {
            assert_eq!(e, DavError::FsError(FsError::Forbidden));
            assert_eq!(e.statuscode(), 403);
        },
        _ => panic!("the request must fail"),
    }
}

#[test]
fn mkcol_on_clean_path_is_201_with_content_location() {
    let c = ctx(false);
    let mut path = until_create(&c, b"/dav/new");
    assert!(!path.is_collection());
    let (s, a) = c.handle_mkcol(&mut path, MkcolState::CreateDir, MkcolEvent::Created(Ok(())));
    assert_eq!(s, MkcolState::Done);
    assert!(path.is_collection());
    match a {
        MkcolAction::Respond(res) => {
            assert_eq!(res.status, 201);
            assert_eq!(lines(&res), vec![line("Content-Location", "/dav/new/")]);
        },
        _ => panic!("the request must succeed"),
    }
}

#[test]
fn mkcol_failed_conditional_ends_the_request() {
    let c = ctx(true);
    let mut path = c.path(b"/dav/a");
    let (s, a) = c.handle_mkcol(&mut path, MkcolState::Conditional, MkcolEvent::Tokens(Err(412)));
    assert_eq!(s, MkcolState::Done);
    assert!(matches!(a, MkcolAction::Fail(DavError::Status(412))));
}

#[test]
fn mkcol_metadata_of_existing_target_reaches_the_evaluator() {
    let c = ctx(true);
    let mut path = c.path(b"/dav/a");
    let (s, a) = c.handle_mkcol(&mut path, MkcolState::Metadata, MkcolEvent::Metadata(true));
    assert_eq!(s, MkcolState::Conditional);
    assert!(matches!(a, MkcolAction::Evaluate { exists: true }));
}

#[test]
fn locked_resource_is_423_and_never_created() {
    let c = ctx(true);
    let mut path = c.path(b"/dav/locked");
    let tokens = vec!["opaquelocktoken:1".to_string(), "opaquelocktoken:2".to_string()];
    let (s, a) = c.handle_mkcol(&mut path, MkcolState::Conditional, MkcolEvent::Tokens(Ok(tokens.clone())));
    assert_eq!(s, MkcolState::LockCheck);
    match a {
        MkcolAction::CheckLock { tokens: t, exclusive, recursive } => {
            assert_eq!(t, tokens);
            assert!(!exclusive);
            assert!(!recursive);
        },
        _ => panic!("the lock store must be asked"),
    }
    let (s, a) = c.handle_mkcol(&mut path, s, MkcolEvent::LockChecked(false));
    assert_eq!(s, MkcolState::Done);
    assert!(matches!(a, MkcolAction::Fail(DavError::Status(423))));
    let (s, a) = c.handle_mkcol(&mut path, s, MkcolEvent::Created(Ok(())));
    assert_eq!(s, MkcolState::Done);
    assert!(matches!(a, MkcolAction::Fail(DavError::Status(500))));
    assert!(!path.is_collection());
}

#[test]
fn passed_lock_check_creates() {
    let c = ctx(true);
    let mut path = c.path(b"/dav/free");
    let (s, a) = c.handle_mkcol(&mut path, MkcolState::LockCheck, MkcolEvent::LockChecked(true));
    assert_eq!(s, MkcolState::CreateDir);
    assert!(matches!(a, MkcolAction::CreateDir));
}

#[test]
fn unexpected_event_is_500() {
    let c = ctx(false);
    let mut path = c.path(b"/dav/a");
    let (s, a) = c.handle_mkcol(&mut path, MkcolState::Start, MkcolEvent::Created(Ok(())));
    assert_eq!(s, MkcolState::Done);
    assert!(matches!(a, MkcolAction::Fail(DavError::Status(500))));
    let (_, a) = c.handle_mkcol(&mut path, MkcolState::CreateDir, MkcolEvent::LockChecked(true));
    assert!(matches!(a, MkcolAction::Fail(DavError::Status(500))));
}

#[test]
fn error_response_has_status_and_empty_body() {
    let r = error_response(&DavError::Status(404), false);
    assert_eq!(r.status, 404);
    assert_eq!(lines(&r), vec![line("Content-Length", "0")]);
    let r = error_response(&DavError::StatusClose(405), true);
    assert_eq!(r.status, 405);
    assert_eq!(lines(&r), vec![line("Content-Length", "0"), line("connection", "close")]);
    let r = error_response(&DavError::IoError(IoErrorKind::UnexpectedEof), false);
    assert_eq!(r.status, 502);
    assert_eq!(lines(&r), vec![line("Content-Length", "0"), line("connection", "close")]);
    let r = error_response(&DavError::FsError(FsError::Forbidden), true);
    assert_eq!(r.status, 403);
    assert_eq!(lines(&r), vec![line("Content-Length", "0")]);
}

#[test]
fn legacy_client_gets_cache_defeating_headers_on_404() {
    let ua: &[u8] = b"Microsoft-WebDAV-MiniRedir/10.0";
    let r = handle(Err(DavError::FsError(FsError::NotFound)), Some(ua));
    assert_eq!(r.status, 404);
    assert_eq!(
        lines(&r),
        vec![
            line("Cache-Control", "no-store, no-cache, must-revalidate"),
            line("Expires", "0"),
            line("Vary", "*"),
            line("Content-Length", "0"),
        ]
    );
    let r = handle(Err(DavError::StatusClose(404)), Some(ua));
    assert_eq!(lines(&r).len(), 5);
    assert_eq!(lines(&r)[4], line("connection", "close"));
    let other: &[u8] = b"curl/8.0";
    let r = handle(Err(DavError::Status(404)), Some(other));
    assert_eq!(lines(&r), vec![line("Content-Length", "0")]);
    let r = handle(Err(DavError::Status(404)), None);
    assert_eq!(lines(&r), vec![line("Content-Length", "0")]);
    let r = handle(Err(DavError::Status(403)), Some(ua));
    assert_eq!(lines(&r), vec![line("Content-Length", "0")]);
}

#[test]
fn success_passes_through_unchanged() {
    let mut res = DavResponse::new(207);
    res.set_content_location(b"/dav/a/".to_vec());
    let ua: &[u8] = b"Microsoft";
    let r = handle(Ok(res), Some(ua));
    assert_eq!(r.status, 207);
    assert_eq!(lines(&r), vec![line("Content-Location", "/dav/a/")]);
}

#[test]
fn legacy_client_is_found_by_substring() {
    assert!(legacy_client(Some(b"Microsoft")));
    assert!(legacy_client(Some(b"xx Microsoft Office")));
    assert!(legacy_client(Some(b"MicroMicrosoft")));
    assert!(!legacy_client(Some(b"microsoft")));
    assert!(!legacy_client(Some(b"Microsof")));
    assert!(!legacy_client(Some(b"")));
    assert!(!legacy_client(None));
    assert!(find_bytes(b"abc", b""));
    assert!(find_bytes(b"", b""));
    assert!(find_bytes(b"abcabd", b"abd"));
    assert!(!find_bytes(b"ab", b"abc"));
}

#[test]
fn options_lists_every_method_by_default() {
    let res = ctx(false).handle_options();
    assert_eq!(res.status, 200);
    assert_eq!(
        lines(&res),
        vec![line(
            "Allow",
            "HEAD,GET,PUT,PATCH,OPTIONS,PROPFIND,PROPPATCH,MKCOL,COPY,MOVE,DELETE,LOCK,UNLOCK"
        )]
    );
}

#[test]
fn options_lists_the_configured_methods() {
    let mut allow = webdav_engine::method::AllowedMethods::none();
    allow.add(webdav_engine::method::Method::Lock);
    allow.add(webdav_engine::method::Method::Get);
    let cfg: DavConfig<u32, u32> = DavConfig::new().filesystem(1).methods(allow);
    let res = DavInner::from_config(cfg).handle_options();
    assert_eq!(lines(&res), vec![line("Allow", "GET,LOCK")]);
    let cfg: DavConfig<u32, u32> =
        DavConfig::new().filesystem(1).methods(webdav_engine::method::AllowedMethods::none());
    let res = DavInner::from_config(cfg).handle_options();
    assert_eq!(lines(&res), vec![line("Allow", "")]);
}

#[test]
fn options_without_filesystem_lists_options_alone() {
    let cfg: DavConfig<u32, u32> = DavConfig::new();
    let mut c = DavInner::from_config(cfg);
    let accepted = c.begin(b"OPTIONS", b"/").unwrap();
    assert_eq!(accepted.method, webdav_engine::method::Method::Options);
    let res = c.handle_options();
    assert_eq!(res.status, 200);
    assert_eq!(lines(&res), vec![line("Allow", "OPTIONS")]);
}

#[test]
fn method_at_is_inverse_of_index() {
    for i in 0..13u32 {
        assert_eq!(webdav_engine::method::Method::at(i).index(), i);
    }
}
