//! Responses as the engine states them, and the mapping from a failed
//! request to the response that answers it.

use vstd::prelude::*;
use vstd::string::StringSliceAdditionalSpecFns;
use crate::davpath::copy_bytes;
use crate::errors::{DavError, DavResult, NOT_FOUND};

verus! {

/// One header line: a name and a value, as bytes.
#[derive(Debug)]
pub struct Header {
    pub name: Vec<u8>,
    pub value: Vec<u8>,
}

impl View for Header {
    type V = (Seq<u8>, Seq<u8>);

    open spec fn view(&self) -> (Seq<u8>, Seq<u8>) {
        (self.name@, self.value@)
    }
}

/// A response: its status and its headers, in the order in which they
/// were set. The engine itself gives a response no body.
#[derive(Debug)]
pub struct DavResponse {
    pub status: u16,
    pub headers: Vec<Header>,
}

/// The header lines of a response, each as a pair of byte strings.
pub open spec fn header_lines(headers: Seq<Header>) -> Seq<(Seq<u8>, Seq<u8>)> {
    headers.map_values(|h: Header| h@)
}

impl View for DavResponse {
    type V = (u16, Seq<(Seq<u8>, Seq<u8>)>);

    open spec fn view(&self) -> (u16, Seq<(Seq<u8>, Seq<u8>)>) {
        (self.status, header_lines(self.headers@))
    }
}

/// A header line written with text.
pub open spec fn line(name: &str, value: &str) -> (Seq<u8>, Seq<u8>) {
    (name.spec_bytes(), value.spec_bytes())
}

/// The `Content-Location` line for a URL.
pub open spec fn content_location(url: Seq<u8>) -> (Seq<u8>, Seq<u8>) {
    ("Content-Location".spec_bytes(), url)
}

/// The lines that ask a client not to keep a response in its cache.
pub open spec fn no_cache_lines() -> Seq<(Seq<u8>, Seq<u8>)> {
    seq![
        line("Cache-Control", "no-store, no-cache, must-revalidate"),
        line("Expires", "0"),
        line("Vary", "*"),
    ]
}

/// The name of the client family that keeps a 404 in its cache without
/// regard to case: `Microsoft`, as ASCII codes.
pub open spec fn legacy_mark() -> Seq<u8> {
    seq![77u8, 105u8, 99u8, 114u8, 111u8, 115u8, 111u8, 102u8, 116u8]
}

/// Whether `needle` stands somewhere in `hay`.
pub open spec fn contains_bytes(hay: Seq<u8>, needle: Seq<u8>) -> bool {
    exists|i: int| 0 <= i <= hay.len() - needle.len() && #[trigger] hay.subrange(i, i + needle.len()) == needle
}

/// Whether a `User-Agent` names the legacy client family.
pub open spec fn is_legacy_client(user_agent: Option<Seq<u8>>) -> bool {
    match user_agent {
        Some(ua) => contains_bytes(ua, legacy_mark()),
        None => false,
    }
}

/// The headers of the response to a failed request: the cache-defeating
/// lines for a 404 to a legacy client, `Content-Length: 0`, and
/// `connection: close` where the connection can no longer be trusted.
pub open spec fn error_lines(err: DavError, legacy: bool) -> Seq<(Seq<u8>, Seq<u8>)> {
    let cache = if legacy && err.status_spec() == NOT_FOUND {
        no_cache_lines()
    } else {
        Seq::empty()
    };
    let length = seq![line("Content-Length", "0")];
    let close = if err.must_close_spec() {
        seq![line("connection", "close")]
    } else {
        Seq::empty()
    };
    cache + length + close
}

/// Whether `needle` stands somewhere in `hay`.
pub fn find_bytes(hay: &[u8], needle: &[u8]) -> (found: bool)
    ensures
        found == contains_bytes(hay@, needle@),
{
    let mut i: usize = 0;
    while i <= hay.len() && needle.len() <= hay.len() - i
        invariant
            i <= hay@.len() + 1,
            forall|j: int| 0 <= j < i ==> #[trigger] hay@.subrange(j, j + needle@.len()) != needle@,
        decreases hay@.len() + 1 - i,
    {
        let mut k: usize = 0;
        let mut same: bool = true;
        let end: usize = hay.len();
        while same && k < needle.len()
            invariant
                k <= needle@.len(),
                end == hay@.len(),
                i + needle@.len() <= end,
                !same ==> k < needle@.len() && hay@[i + k] != needle@[k as int],
                forall|j: int| 0 <= j < k ==> hay@[i + j] == needle@[j],
            decreases needle@.len() - k + if same { 1int } else { 0int },
        {
            if hay[i + k] == needle[k] {
                k += 1;
            } else {
                same = false;
            }
        }
        if same {
            assert(hay@.subrange(i as int, i + needle@.len()) =~= needle@);
            return true;
        }
        assert(hay@.subrange(i as int, i + needle@.len())[k as int] != needle@[k as int]);
        i += 1;
    }
    false
}

/// A header line from two pieces of text.
fn text_header(name: &str, value: &str) -> (h: Header)
    ensures
        h@ == line(name, value),
{
    Header { name: copy_bytes(name.as_bytes()), value: copy_bytes(value.as_bytes()) }
}

impl DavResponse {
    /// A response with the given status and no headers.
    pub fn new(status: u16) -> (r: DavResponse)
        ensures
            r@ == (status, Seq::<(Seq<u8>, Seq<u8>)>::empty()),
    {
        let r = DavResponse { status: status, headers: Vec::new() };
        assert(r@.1 =~= Seq::<(Seq<u8>, Seq<u8>)>::empty());
        r
    }

    /// Adds a header line after those that are there.
    pub fn push_header(&mut self, h: Header)
        ensures
            final(self)@ == (old(self).status, old(self)@.1.push(h@)),
    {
        self.headers.push(h);
        assert(self@.1 =~= old(self)@.1.push(h@));
    }

    /// Adds a `Content-Location` line with the given URL.
    pub fn set_content_location(&mut self, url: Vec<u8>)
        ensures
            final(self)@ == (old(self).status, old(self)@.1.push(content_location(url@))),
    {
        let name = copy_bytes("Content-Location".as_bytes());
        self.push_header(Header { name: name, value: url });
    }
}

/// Whether the request comes from the legacy client family, by its
/// `User-Agent` header, if it has one.
pub fn legacy_client(user_agent: Option<&[u8]>) -> (legacy: bool)
    ensures
        legacy == is_legacy_client(
            match user_agent {
                Some(ua) => Some(ua@),
                None => None,
            },
        ),
{
    match user_agent {
        Some(ua) => {
            let mark: [u8; 9] = [77u8, 105u8, 99u8, 114u8, 111u8, 115u8, 111u8, 102u8, 116u8];
            assert(mark@ =~= legacy_mark());
            find_bytes(ua, mark.as_slice())
        },
        None => false,
    }
}

/// The response that answers a failed request: the mapped status and no
/// body, with the headers of `error_lines`.
pub fn error_response(err: &DavError, legacy: bool) -> (r: DavResponse)
    ensures
        r@ == (err.status_spec(), error_lines(*err, legacy)),
{
    let code = err.statuscode();
    let mut r = DavResponse::new(code);
    if legacy && code == NOT_FOUND {
        r.push_header(text_header("Cache-Control", "no-store, no-cache, must-revalidate"));
        r.push_header(text_header("Expires", "0"));
        r.push_header(text_header("Vary", "*"));
    }
    r.push_header(text_header("Content-Length", "0"));
    if err.must_close() {
        r.push_header(text_header("connection", "close"));
    }
    assert(r@.1 =~= error_lines(*err, legacy));
    r
}

/// What the transport is given for a request: the handler's response as
/// it is, or the response that answers its error.
pub fn handle(result: DavResult<DavResponse>, user_agent: Option<&[u8]>) -> (r: DavResponse)
    ensures
        match result {
            Ok(resp) => r == resp,
            Err(err) => r@ == (
                err.status_spec(),
                error_lines(
                    err,
                    is_legacy_client(
                        match user_agent {
                            Some(ua) => Some(ua@),
                            None => None,
                        },
                    ),
                ),
            ),
        },
{
    let legacy = legacy_client(user_agent);
    match result {
        Ok(resp) => resp,
        Err(err) => error_response(&err, legacy),
    }
}

} // verus!
