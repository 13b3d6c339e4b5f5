use webdav_engine::davhandler::{DavConfig, DavInner};
use webdav_engine::davpath::DavPath;
use webdav_engine::errors::DavError;
use webdav_engine::response::{DavResponse, Header};

fn segs(p: &DavPath) -> Vec<Vec<u8>> {
    p.segments().clone()
}

#[test]
fn round_trip_with_prefix() {
    let p = DavPath::from_uri(b"/dav/x%20y/", b"/dav").unwrap();
    assert_eq!(segs(&p), vec![b"x y".to_vec()]);
    assert!(p.is_collection());
    assert_eq!(p.as_url_bytes_with_prefix(), b"/dav/x%20y/".to_vec());
    assert_eq!(p.as_url_bytes(), b"/x%20y/".to_vec());
    assert_eq!(p.prefix(), &b"/dav".to_vec());
}

#[test]
fn trailing_slash_of_prefix_is_ignored() {
    let p = DavPath::from_uri(b"/dav/a", b"/dav/").unwrap();
    assert_eq!(segs(&p), vec![b"a".to_vec()]);
    assert!(!p.is_collection());
    assert_eq!(p.as_url_bytes_with_prefix(), b"/dav/a".to_vec());
}

#[test]
fn root_is_a_collection() {
    let p = DavPath::from_uri(b"/dav", b"/dav").unwrap();
    assert_eq!(segs(&p), Vec::<Vec<u8>>::new());
    assert!(p.is_collection());
    assert_eq!(p.as_url_bytes(), b"/".to_vec());
    assert_eq!(p.as_url_bytes_with_prefix(), b"/dav/".to_vec());
    let p = DavPath::from_uri(b"/", b"").unwrap();
    assert!(p.is_collection());
    assert_eq!(p.as_url_bytes_with_prefix(), b"/".to_vec());
}

#[test]
fn dots_and_empty_segments_are_normalized() {
    let p = DavPath::from_uri(b"/a//b/./c/../d", b"").unwrap();
    assert_eq!(segs(&p), vec![b"a".to_vec(), b"b".to_vec(), b"d".to_vec()]);
    assert!(!p.is_collection());
    assert_eq!(p.as_url_bytes(), b"/a/b/d".to_vec());
    let p = DavPath::from_uri(b"/a/b/..", b"").unwrap();
    assert_eq!(segs(&p), vec![b"a".to_vec()]);
    let p = DavPath::from_uri(b"/a/..", b"").unwrap();
    assert!(p.is_collection());
}

#[test]
fn invalid_uris_are_400() {
    let bad = Err(DavError::Status(400));
    assert_eq!(DavPath::from_uri(b"", b"").map(|_| ()), bad);
    assert_eq!(DavPath::from_uri(b"a/b", b"").map(|_| ()), bad);
    assert_eq!(DavPath::from_uri(b"/a/%2", b"").map(|_| ()), bad);
    assert_eq!(DavPath::from_uri(b"/a/%", b"").map(|_| ()), bad);
    assert_eq!(DavPath::from_uri(b"/a/%g0", b"").map(|_| ()), bad);
    assert_eq!(DavPath::from_uri(b"/a/%2f", b"").map(|_| ()), bad);
    assert_eq!(DavPath::from_uri(b"/a/%00", b"").map(|_| ()), bad);
    assert_eq!(DavPath::from_uri(b"/a/%2/b", b"").map(|_| ()), bad);
    assert_eq!(DavPath::from_uri(b"/..", b"").map(|_| ()), bad);
    assert_eq!(DavPath::from_uri(b"/dav/../etc", b"/dav").map(|_| ()), bad);
    assert_eq!(DavPath::from_uri(b"/davx/a", b"/dav").map(|_| ()), bad);
    assert_eq!(DavPath::from_uri(b"/da", b"/dav").map(|_| ()), bad);
    assert_eq!(DavPath::from_uri(b"/other", b"/dav").map(|_| ()), bad);
}

#[test]
fn escapes_in_both_cases() {
    let p = DavPath::from_uri(b"/%41%6a%6A%e2%82%AC", b"").unwrap();
    assert_eq!(segs(&p), vec![vec![0x41, 0x6a, 0x6a, 0xe2, 0x82, 0xac]]);
    assert_eq!(p.as_url_bytes(), b"/Ajj%E2%82%AC".to_vec());
    let p = DavPath::from_uri(b"/a-b_c.d~e%21", b"").unwrap();
    assert_eq!(p.as_url_bytes(), b"/a-b_c.d~e%21".to_vec());
}

#[test]
fn same_resource_ignores_trailing_slash() {
    let a = DavPath::from_uri(b"/a/b", b"").unwrap();
    let b = DavPath::from_uri(b"/a/b/", b"").unwrap();
    let c = DavPath::from_uri(b"/a/c", b"").unwrap();
    let d = DavPath::from_uri(b"/a", b"").unwrap();
    assert!(a.same_resource(&b));
    assert!(!a.same_resource(&c));
    assert!(!a.same_resource(&d));
}

#[test]
fn parent_drops_last_segment() {
    let a = DavPath::from_uri(b"/dav/a/b", b"/dav").unwrap();
    let p = a.parent();
    assert_eq!(segs(&p), vec![b"a".to_vec()]);
    assert!(p.is_collection());
    assert_eq!(p.as_url_bytes_with_prefix(), b"/dav/a/".to_vec());
    let root = p.parent().parent();
    assert_eq!(root.as_url_bytes_with_prefix(), b"/dav/".to_vec());
}

#[test]
fn fixpath_adds_slash_and_content_location() {
    let ctx: DavInner<u32, u32> =
        DavInner::from_config(DavConfig::new().filesystem(1).strip_prefix("/dav".to_string()));
    let mut path = ctx.path(b"/dav/a/b");
    let mut res = DavResponse::new(200);
    ctx.fixpath(&mut res, &mut path, true);
    assert!(path.is_collection());
    assert_eq!(res.status, 200);
    assert_eq!(res.headers.len(), 1);
    assert_eq!(res.headers[0].name, b"Content-Location".to_vec());
    assert_eq!(res.headers[0].value, b"/dav/a/b/".to_vec());
}

#[test]
fn fixpath_leaves_files_and_collections_alone() {
    let ctx: DavInner<u32, u32> = DavInner::from_config(DavConfig::new().filesystem(1));
    let mut path = ctx.path(b"/a/b");
    let mut res = DavResponse::new(200);
    ctx.fixpath(&mut res, &mut path, false);
    assert!(!path.is_collection());
    assert!(res.headers.is_empty());
    let mut path = ctx.path(b"/a/b/");
    ctx.fixpath(&mut res, &mut path, true);
    assert!(path.is_collection());
    assert!(res.headers.is_empty());
    res.push_header(Header { name: b"x".to_vec(), value: b"y".to_vec() });
    assert_eq!(res.headers.len(), 1);
}
