use bytes::Bytes;
use webdav_engine::body::{read_request, BodyBuffer, MAX_BODY};
use webdav_engine::davhandler::{select_handler, DavConfig, DavHandler, DavInner, FileSystem, Handler};
use webdav_engine::errors::{DavError, FsError, IoErrorKind};
use webdav_engine::method::{dav_method, AllowedMethods, Method};

type Config = DavConfig<u32, u32>;

fn with_fs(prefix: &str) -> DavInner<u32, u32> {
    DavInner::from_config(Config::new().strip_prefix(prefix.to_string()).filesystem(7))
}

fn chunks(parts: Vec<Vec<u8>>) -> Vec<Result<Bytes, ()>> {
    parts.into_iter().map(|p| Ok(Bytes::from(p))).collect()
}

const ALL: [(&[u8], Method); 13] = [
    (b"HEAD", Method::Head),
    (b"GET", Method::Get),
    (b"PUT", Method::Put),
    (b"PATCH", Method::Patch),
    (b"OPTIONS", Method::Options),
    (b"PROPFIND", Method::PropFind),
    (b"PROPPATCH", Method::PropPatch),
    (b"MKCOL", Method::MkCol),
    (b"COPY", Method::Copy),
    (b"MOVE", Method::Move),
    (b"DELETE", Method::Delete),
    (b"LOCK", Method::Lock),
    (b"UNLOCK", Method::Unlock),
];

#[test]
fn every_token_is_classified() {
    for (token, method) in ALL.iter() {
        assert_eq!(dav_method(token), Ok(*method));
        assert_eq!(method.token(), token.to_vec());
    }
}

#[test]
fn unknown_method_is_405() {
    assert_eq!(dav_method(b"TRACE"), Err(DavError::Status(405)));
    assert_eq!(dav_method(b"get"), Err(DavError::Status(405)));
    assert_eq!(dav_method(b""), Err(DavError::Status(405)));
    assert_eq!(dav_method(b"GETX"), Err(DavError::Status(405)));
    let mut ctx = with_fs("/dav");
    let body: Vec<Result<Bytes, ()>> = Vec::new();
    let r = ctx.handle2(b"CONNECT", b"/dav/a", &body);
    assert_eq!(r.unwrap_err(), DavError::Status(405));
    assert_eq!(ctx.allow, None);
}

#[test]
fn allowed_methods_none_all_add() {
    let none = AllowedMethods::none();
    let all = AllowedMethods::all();
    for (_, m) in ALL.iter() {
        assert!(!none.allowed(*m));
        assert!(all.allowed(*m));
    }
    let mut a = AllowedMethods::none();
    a.add(Method::Get);
    a.add(Method::Unlock);
    for (_, m) in ALL.iter() {
        assert_eq!(a.allowed(*m), *m == Method::Get || *m == Method::Unlock);
    }
    a.add(Method::Get);
    assert!(a.allowed(Method::Get));
    assert!(!a.allowed(Method::Head));
}

#[test]
fn inert_filesystem_allows_only_options() {
    for (token, m) in ALL.iter() {
        let mut ctx: DavInner<u32, u32> = DavInner::from_config(Config::new());
        assert!(ctx.is_voidfs());
        let body: Vec<Result<Bytes, ()>> = Vec::new();
        let r = ctx.handle2(token, b"/", &body);
        if *m == Method::Options {
            let d = r.unwrap();
            assert_eq!(d.handler, Handler::Options);
            let allow = ctx.allow.unwrap();
            for (_, x) in ALL.iter() {
                assert_eq!(allow.allowed(*x), *x == Method::Options);
            }
        } else {
            assert_eq!(r.unwrap_err(), DavError::StatusClose(405));
        }
    }
}

#[test]
fn inert_filesystem_wins_over_allow_list() {
    let mut ctx: DavInner<u32, u32> = DavInner::from_config(Config::new().methods(AllowedMethods::all()));
    let r = ctx.begin(b"GET", b"/");
    assert_eq!(r.unwrap_err(), DavError::StatusClose(405));
    let mut only_get = AllowedMethods::none();
    only_get.add(Method::Get);
    let mut ctx: DavInner<u32, u32> = DavInner::from_config(Config::new().methods(only_get));
    let r = ctx.begin(b"OPTIONS", b"/");
    assert_eq!(r.unwrap_err(), DavError::StatusClose(405));
    assert_eq!(ctx.allow, Some(only_get));
}

#[test]
fn allow_list_refuses_with_405() {
    let mut only_get = AllowedMethods::none();
    only_get.add(Method::Get);
    let mut ctx: DavInner<u32, u32> = DavInner::from_config(Config::new().filesystem(1).methods(only_get));
    assert_eq!(ctx.begin(b"PUT", b"/a").unwrap_err(), DavError::StatusClose(405));
    let ok = ctx.begin(b"GET", b"/a").unwrap();
    assert_eq!(ok.method, Method::Get);
    assert_eq!(ok.buffer, Some(65536));
    assert_eq!(ctx.allow, Some(only_get));
}

#[test]
fn bad_path_is_400() {
    let mut ctx = with_fs("/dav");
    assert_eq!(ctx.begin(b"GET", b"/other/a").unwrap_err(), DavError::Status(400));
    assert_eq!(ctx.begin(b"GET", b"/dav/%zz").unwrap_err(), DavError::Status(400));
    assert_eq!(ctx.begin(b"GET", b"/dav/../x").unwrap_err(), DavError::Status(400));
}

#[test]
fn put_and_patch_stream_their_body() {
    let mut ctx = with_fs("");
    let a = ctx.begin(b"PUT", b"/f").unwrap();
    assert_eq!(a.buffer, None);
    let a = ctx.begin(b"PATCH", b"/f").unwrap();
    assert_eq!(a.buffer, None);
    let big = chunks(vec![vec![1u8; 70000]]);
    let d = ctx.handle2(b"PUT", b"/f", &big).unwrap();
    assert_eq!(d.handler, Handler::Put);
    assert_eq!(d.body, Vec::<u8>::new());
}

#[test]
fn unexpected_body_is_415() {
    let takes_body = [Method::Put, Method::Patch, Method::PropFind, Method::PropPatch, Method::Lock];
    for (token, m) in ALL.iter() {
        let r = select_handler(*m, 1);
        let mut ctx = with_fs("");
        let body = chunks(vec![b"x".to_vec()]);
        let d = ctx.handle2(token, b"/a", &body);
        if takes_body.contains(m) {
            assert!(r.is_ok());
            assert!(d.is_ok());
        } else {
            assert_eq!(r, Err(DavError::Status(415)));
            assert_eq!(d.unwrap_err(), DavError::Status(415));
        }
        assert!(select_handler(*m, 0).is_ok());
    }
}

#[test]
fn handlers_by_method() {
    assert_eq!(select_handler(Method::Options, 0), Ok(Handler::Options));
    assert_eq!(select_handler(Method::PropFind, 5), Ok(Handler::PropFind));
    assert_eq!(select_handler(Method::PropPatch, 5), Ok(Handler::PropPatch));
    assert_eq!(select_handler(Method::MkCol, 0), Ok(Handler::MkCol));
    assert_eq!(select_handler(Method::Delete, 0), Ok(Handler::Delete));
    assert_eq!(select_handler(Method::Lock, 9), Ok(Handler::Lock));
    assert_eq!(select_handler(Method::Unlock, 0), Ok(Handler::Unlock));
    assert_eq!(select_handler(Method::Head, 0), Ok(Handler::Get));
    assert_eq!(select_handler(Method::Get, 0), Ok(Handler::Get));
    assert_eq!(select_handler(Method::Put, 1), Ok(Handler::Put));
    assert_eq!(select_handler(Method::Patch, 1), Ok(Handler::Put));
    assert_eq!(select_handler(Method::Copy, 0), Ok(Handler::CopyMove));
    assert_eq!(select_handler(Method::Move, 0), Ok(Handler::CopyMove));
}

#[test]
fn oversized_body_is_413() {
    let mut ctx = with_fs("");
    let body = chunks(vec![vec![0u8; 65536], vec![0u8; 1]]);
    assert_eq!(ctx.handle2(b"PROPFIND", b"/a", &body).unwrap_err(), DavError::Status(413));
    let body = chunks(vec![vec![0u8; 65537]]);
    assert_eq!(ctx.handle2(b"DELETE", b"/a", &body).unwrap_err(), DavError::Status(413));
    let body = chunks(vec![vec![9u8; 65536]]);
    let d = ctx.handle2(b"PROPFIND", b"/a", &body).unwrap();
    assert_eq!(d.body.len(), 65536);
    assert_eq!(MAX_BODY, 65536);
}

#[test]
fn oversized_chunk_is_not_kept() {
    let mut buf = BodyBuffer::new(4);
    assert_eq!(buf.accept::<()>(&Ok(Bytes::from_static(b"abc"))), Ok(()));
    assert_eq!(buf.accept::<()>(&Ok(Bytes::from_static(b"de"))), Err(DavError::Status(413)));
    assert_eq!(buf.len(), 3);
    assert_eq!(buf.accept::<()>(&Ok(Bytes::from_static(b"d"))), Ok(()));
    assert_eq!(buf.into_data(), b"abcd".to_vec());
}

#[test]
fn chunks_are_joined_in_order() {
    let body = chunks(vec![b"<a>".to_vec(), Vec::new(), b"text".to_vec(), b"</a>".to_vec()]);
    assert_eq!(read_request(&body, 100), Ok(b"<a>text</a>".to_vec()));
    assert_eq!(read_request(&body, 11), Ok(b"<a>text</a>".to_vec()));
    assert_eq!(read_request(&body, 10), Err(DavError::Status(413)));
    let empty: Vec<Result<Bytes, ()>> = Vec::new();
    assert_eq!(read_request(&empty, 0), Ok(Vec::new()));
}

#[test]
fn failed_read_is_an_io_error() {
    let body: Vec<Result<Bytes, u8>> = vec![Ok(Bytes::from_static(b"ab")), Err(1), Ok(Bytes::from_static(b"cd"))];
    let e = read_request(&body, 100).unwrap_err();
    assert_eq!(e, DavError::IoError(IoErrorKind::UnexpectedEof));
    assert!(e.must_close());
    let body: Vec<Result<Bytes, u8>> = vec![Ok(Bytes::from(vec![0u8; 200])), Err(1)];
    assert_eq!(read_request(&body, 100), Err(DavError::Status(413)));
}

#[test]
fn merge_keeps_base_and_takes_override() {
    let base: Config = Config::new().strip_prefix("/dav".to_string());
    assert!(base.ls.is_none());
    let merged = base.merge(Config::new().locksystem(42));
    assert_eq!(merged.prefix, Some("/dav".to_string()));
    assert_eq!(merged.ls, Some(42));
    let ctx = DavInner::from_config(merged);
    assert_eq!(ctx.prefix, "/dav");
    assert_eq!(ctx.ls, Some(42));
    assert!(ctx.is_voidfs());

    let merged = base.merge(Config::new().strip_prefix("/other".to_string()));
    assert_eq!(DavInner::from_config(merged).prefix, "/other");

    let handler = Config::new()
        .strip_prefix("/dav".to_string())
        .filesystem(3)
        .principal("alice".to_string())
        .hide_symlinks(false)
        .build_handler();
    let ctx = handler.context_with(Config::new().locksystem(5).principal("bob".to_string()));
    assert_eq!(ctx.prefix, "/dav");
    assert!(matches!(ctx.fs, FileSystem::Backend(3)));
    assert_eq!(ctx.ls, Some(5));
    assert_eq!(ctx.principal, Some("bob".to_string()));
    assert_eq!(ctx.hide_symlinks, Some(false));
    assert_eq!(ctx.allow, None);
    let ctx = handler.context();
    assert_eq!(ctx.principal, Some("alice".to_string()));
    assert_eq!(ctx.ls, None);
    let twin = ctx.clone();
    assert_eq!(twin.prefix, "/dav");
    assert!(matches!(twin.fs, FileSystem::Backend(3)));
}

#[test]
fn empty_handler_has_defaults() {
    let h: DavHandler<u32, u32> = DavHandler::new();
    assert!(h.config.prefix.is_none() && h.config.fs.is_none() && h.config.ls.is_none());
    assert!(h.config.allow.is_none() && h.config.principal.is_none());
    assert!(h.config.hide_symlinks.is_none());
    let b: Config = DavHandler::builder();
    assert!(b.prefix.is_none() && b.fs.is_none());
    let ctx = h.context();
    assert_eq!(ctx.prefix, "");
    assert!(ctx.is_voidfs());
    assert!(ctx.hides_symlinks());
    let shown: DavInner<u32, u32> = DavInner::from_config(Config::new().hide_symlinks(false));
    assert!(!shown.hides_symlinks());
    let mut all = AllowedMethods::none();
    all.add(Method::Put);
    let cfg = b.methods(all);
    assert_eq!(cfg.allow, Some(all));
}

#[test]
fn status_of_each_error() {
    assert_eq!(DavError::Status(412).statuscode(), 412);
    assert_eq!(DavError::StatusClose(405).statuscode(), 405);
    assert_eq!(DavError::IoError(IoErrorKind::NotFound).statuscode(), 404);
    assert_eq!(DavError::IoError(IoErrorKind::PermissionDenied).statuscode(), 403);
    assert_eq!(DavError::IoError(IoErrorKind::AlreadyExists).statuscode(), 409);
    assert_eq!(DavError::IoError(IoErrorKind::TimedOut).statuscode(), 504);
    assert_eq!(DavError::IoError(IoErrorKind::UnexpectedEof).statuscode(), 502);
    assert_eq!(DavError::IoError(IoErrorKind::Other).statuscode(), 502);
    assert_eq!(DavError::FsError(FsError::NotFound).statuscode(), 404);
    assert_eq!(DavError::FsError(FsError::Exists).statuscode(), 405);
    assert_eq!(DavError::FsError(FsError::Forbidden).statuscode(), 403);
    assert_eq!(DavError::FsError(FsError::GeneralFailure).statuscode(), 500);
    assert_eq!(DavError::FsError(FsError::NotImplemented).statuscode(), 501);
    assert_eq!(DavError::FsError(FsError::InsufficientStorage).statuscode(), 507);
    assert_eq!(DavError::FsError(FsError::LoopDetected).statuscode(), 508);
    assert_eq!(DavError::FsError(FsError::PathTooLong).statuscode(), 414);
    assert_eq!(DavError::FsError(FsError::TooLarge).statuscode(), 413);
    assert_eq!(DavError::FsError(FsError::IsRemote).statuscode(), 502);
    assert!(!DavError::Status(404).must_close());
    assert!(DavError::StatusClose(404).must_close());
    assert!(DavError::IoError(IoErrorKind::Other).must_close());
    assert!(!DavError::FsError(FsError::NotFound).must_close());
}
