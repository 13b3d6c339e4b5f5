//! The path model: a request URI, checked against the configured prefix,
//! percent-decoded and normalized into segments, and written out again.

use vstd::prelude::*;
use crate::errors::{DavError, DavResult, BAD_REQUEST};
use crate::method::bytes_eq;

verus! {

pub const SLASH: u8 = 47;
pub const PERCENT: u8 = 37;
pub const DOT: u8 = 46;

/// The value of a hexadecimal digit, in either case.
pub open spec fn hex_val(b: u8) -> Option<u8> {
    if 48 <= b <= 57 {
        Some((b - 48) as u8)
    } else if 65 <= b <= 70 {
        Some((b - 55) as u8)
    } else if 97 <= b <= 102 {
        Some((b - 87) as u8)
    } else {
        None
    }
}

/// The upper-case hexadecimal digit of a value below sixteen.
pub open spec fn hex_digit(v: u8) -> u8 {
    if v < 10 {
        (v + 48) as u8
    } else {
        (v + 55) as u8
    }
}

/// Bytes that are written to a URL as they are: letters, digits and `-._~`.
pub open spec fn unreserved(b: u8) -> bool {
    (48 <= b <= 57) || (65 <= b <= 90) || (97 <= b <= 122) || b == 45 || b == 46 || b == 95
        || b == 126
}

/// What a finished segment does to the segments before it: an empty one
/// and `.` leave them as they are, `..` takes the last one away and fails
/// where there is none, any other is appended.
pub open spec fn close_segment(segs: Seq<Seq<u8>>, cur: Seq<u8>) -> Option<Seq<Seq<u8>>> {
    if cur.len() == 0 || cur == seq![DOT] {
        Some(segs)
    } else if cur == seq![DOT, DOT] {
        if segs.len() == 0 {
            None
        } else {
            Some(segs.drop_last())
        }
    } else {
        Some(segs.push(cur))
    }
}

/// The state of the scanner between two bytes of a path.
pub ghost struct Scan {
    /// The segments that are finished.
    pub segs: Seq<Seq<u8>>,
    /// The decoded bytes of the segment that is being read.
    pub cur: Seq<u8>,
    /// How many bytes of a percent escape were read: 0, 1 (`%`) or 2 (`%` and a digit).
    pub esc: int,
    /// The value of the escape's first digit.
    pub hi: u8,
    /// Whether the path was found invalid.
    pub bad: bool,
}

pub open spec fn scan_start() -> Scan {
    Scan { segs: Seq::empty(), cur: Seq::empty(), esc: 0, hi: 0, bad: false }
}

/// The scanner's state after one more byte. An escape must be `%` and two
/// hexadecimal digits and may stand for neither `/` nor NUL; `/` ends a segment.
pub open spec fn scan_step(st: Scan, b: u8) -> Scan {
    if st.bad {
        st
    } else if st.esc == 1 {
        match hex_val(b) {
            Some(v) => Scan { esc: 2, hi: v, ..st },
            None => Scan { bad: true, ..st },
        }
    } else if st.esc == 2 {
        match hex_val(b) {
            Some(v) => {
                let d = (st.hi * 16 + v) as u8;
                if d == SLASH || d == 0 {
                    Scan { bad: true, ..st }
                } else {
                    Scan { cur: st.cur.push(d), esc: 0, ..st }
                }
            },
            None => Scan { bad: true, ..st },
        }
    } else if b == PERCENT {
        Scan { esc: 1, ..st }
    } else if b == SLASH {
        match close_segment(st.segs, st.cur) {
            Some(segs) => Scan { segs: segs, cur: Seq::empty(), ..st },
            None => Scan { bad: true, ..st },
        }
    } else if b == 0 {
        Scan { bad: true, ..st }
    } else {
        Scan { cur: st.cur.push(b), ..st }
    }
}

/// The scanner's state after all of `s`.
pub open spec fn scan(s: Seq<u8>) -> Scan
    decreases s.len(),
{
    if s.len() == 0 {
        scan_start()
    } else {
        scan_step(scan(s.drop_last()), s.last())
    }
}

/// The segments and the collection flag of a path below the prefix, or
/// `None` where it is invalid: a broken escape, an escaped `/` or NUL, or
/// a `..` that would leave the prefix.
pub open spec fn parse_rest(rest: Seq<u8>) -> Option<(Seq<Seq<u8>>, bool)> {
    let st = scan(rest);
    if st.bad || st.esc != 0 {
        None
    } else {
        match close_segment(st.segs, st.cur) {
            Some(segs) => Some((segs, segs.len() == 0 || rest.last() == SLASH)),
            None => None,
        }
    }
}

/// The prefix as it is compared and written: without the slashes at its end.
pub open spec fn trim_prefix(prefix: Seq<u8>) -> Seq<u8>
    decreases prefix.len(),
{
    if prefix.len() > 0 && prefix.last() == SLASH {
        trim_prefix(prefix.drop_last())
    } else {
        prefix
    }
}

/// Whether a byte string can be a segment of a normalized path: it is not
/// empty, neither `.` nor `..`, and holds neither a slash nor NUL.
pub open spec fn segment_ok(seg: Seq<u8>) -> bool {
    &&& seg.len() > 0
    &&& seg != seq![DOT]
    &&& seg != seq![DOT, DOT]
    &&& bytes_ok(seg)
}

/// Whether a byte string holds neither a slash nor NUL.
pub open spec fn bytes_ok(s: Seq<u8>) -> bool {
    forall|i: int| 0 <= i < s.len() ==> s[i] != SLASH && s[i] != 0
}

/// Whether every segment can be one of a normalized path.
pub open spec fn segments_ok(segs: Seq<Seq<u8>>) -> bool {
    forall|i: int| 0 <= i < segs.len() ==> segment_ok(#[trigger] segs[i])
}

/// Whether a prefix is one that paths are written with: it has no slash
/// at its end, and is empty or begins with a slash.
pub open spec fn prefix_ok(prefix: Seq<u8>) -> bool {
    &&& trim_prefix(prefix) == prefix
    &&& (prefix.len() == 0 || prefix[0] == SLASH)
}

/// Whether `uri` lies under `prefix`: it begins with a slash and with the
/// prefix, and the prefix ends where a segment of the URI ends.
pub open spec fn under_prefix(uri: Seq<u8>, prefix: Seq<u8>) -> bool {
    let p = trim_prefix(prefix);
    &&& uri.len() > 0
    &&& uri[0] == SLASH
    &&& p.len() <= uri.len()
    &&& uri.subrange(0, p.len() as int) == p
    &&& (uri.len() == p.len() || uri[p.len() as int] == SLASH)
}

/// What a URI means under a prefix: its segments and collection flag.
pub open spec fn from_uri_spec(uri: Seq<u8>, prefix: Seq<u8>) -> Option<(Seq<Seq<u8>>, bool)> {
    if under_prefix(uri, prefix) {
        parse_rest(uri.subrange(trim_prefix(prefix).len() as int, uri.len() as int))
    } else {
        None
    }
}

/// One byte as a URL holds it.
pub open spec fn encode_byte(b: u8) -> Seq<u8> {
    if unreserved(b) {
        seq![b]
    } else {
        seq![PERCENT, hex_digit(b / 16), hex_digit(b % 16)]
    }
}

/// One segment as a URL holds it.
pub open spec fn encode_segment(s: Seq<u8>) -> Seq<u8>
    decreases s.len(),
{
    if s.len() == 0 {
        Seq::empty()
    } else {
        encode_segment(s.drop_last()) + encode_byte(s.last())
    }
}

/// The segments as a URL holds them, a slash before each.
pub open spec fn encode_segments(segs: Seq<Seq<u8>>) -> Seq<u8>
    decreases segs.len(),
{
    if segs.len() == 0 {
        Seq::empty()
    } else {
        encode_segments(segs.drop_last()) + seq![SLASH] + encode_segment(segs.last())
    }
}

/// The URL of a path below the prefix: `/` for the root, else the encoded
/// segments, with a slash at the end for a collection.
pub open spec fn url_spec(segs: Seq<Seq<u8>>, collection: bool) -> Seq<u8> {
    if segs.len() == 0 || collection {
        encode_segments(segs).push(SLASH)
    } else {
        encode_segments(segs)
    }
}

/// The byte strings that a vector of vectors holds.
pub open spec fn views(v: Seq<Vec<u8>>) -> Seq<Seq<u8>> {
    v.map_values(|x: Vec<u8>| x@)
}

/// The location of a resource: normalized segments below a prefix, and
/// whether it is written as a collection.
#[derive(Debug)]
pub struct DavPath {
    segments: Vec<Vec<u8>>,
    collection: bool,
    prefix: Vec<u8>,
}

fn hex_value(b: u8) -> (r: Option<u8>)
    ensures
        r == hex_val(b),
        r matches Some(v) ==> v < 16,
{
    if 48 <= b && b <= 57 {
        Some(b - 48)
    } else if 65 <= b && b <= 70 {
        Some(b - 55)
    } else if 97 <= b && b <= 102 {
        Some(b - 87)
    } else {
        None
    }
}

fn hex_char(v: u8) -> (r: u8)
    requires
        v < 16,
    ensures
        r == hex_digit(v),
{
    if v < 10 {
        v + 48
    } else {
        v + 55
    }
}

fn is_unreserved(b: u8) -> (r: bool)
    ensures
        r == unreserved(b),
{
    (48 <= b && b <= 57) || (65 <= b && b <= 90) || (97 <= b && b <= 122) || b == 45 || b == 46
        || b == 95 || b == 126
}

/// Ends the segment `cur`. Returns `false`, and leaves the segments as
/// they are, where a `..` has nothing to take away.
fn close(segs: &mut Vec<Vec<u8>>, cur: Vec<u8>) -> (ok: bool)
    ensures
        match close_segment(views(old(segs)@), cur@) {
            Some(s) => ok && views(final(segs)@) == s,
            None => !ok && final(segs)@ == old(segs)@,
        },
        segments_ok(views(old(segs)@)) && bytes_ok(cur@) ==> segments_ok(views(final(segs)@)),
{
    let ghost before = segs@;
    if cur.len() == 0 || (cur.len() == 1 && cur[0] == DOT) {
        proof {
            if cur.len() == 1 {
                assert(cur@ =~= seq![DOT]);
            }
        }
        true
    } else if cur.len() == 2 && cur[0] == DOT && cur[1] == DOT {
        assert(cur@ =~= seq![DOT, DOT]);
        assert(seq![DOT].len() == 1);
        if segs.len() == 0 {
            false
        } else {
            segs.pop();
            assert(views(segs@) =~= views(before).drop_last());
            true
        }
    } else {
        proof {
            assert(seq![DOT].len() == 1);
            assert(seq![DOT, DOT].len() == 2);
            assert(seq![DOT][0] == DOT);
            assert(seq![DOT, DOT][0] == DOT);
            assert(seq![DOT, DOT][1] == DOT);
        }
        let ghost c = cur@;
        segs.push(cur);
        assert(views(segs@) =~= views(before).push(c));
        true
    }
}

impl DavPath {
    /// The normalized, decoded segments.
    pub closed spec fn segments_spec(&self) -> Seq<Seq<u8>> {
        views(self.segments@)
    }

    /// Whether the path is written as a collection.
    pub closed spec fn collection_spec(&self) -> bool {
        self.collection
    }

    /// The prefix that the path lies under, without a slash at its end.
    pub closed spec fn prefix_spec(&self) -> Seq<u8> {
        self.prefix@
    }

    /// What holds of every path: its segments are normalized, the root is
    /// a collection, and the prefix is one that paths are written with.
    pub open spec fn wf(&self) -> bool {
        &&& segments_ok(self.segments_spec())
        &&& (self.segments_spec().len() == 0 ==> self.collection_spec())
        &&& prefix_ok(self.prefix_spec())
    }

    /// The path as a URL below the prefix.
    pub open spec fn url(&self) -> Seq<u8> {
        url_spec(self.segments_spec(), self.collection_spec())
    }

    /// The path as a URL with the prefix before it.
    pub open spec fn url_with_prefix(&self) -> Seq<u8> {
        self.prefix_spec() + self.url()
    }

    /// Builds the path of a request from the path of its URI and the
    /// configured prefix. A URI that is not under the prefix, or holds
    /// a broken escape or a `..` that leaves the prefix, is refused with 400.
    pub fn from_uri(uri: &[u8], prefix: &[u8]) -> (r: DavResult<DavPath>)
        ensures
            match r {
                Ok(p) => from_uri_spec(uri@, prefix@) == Some((p.segments_spec(), p.collection_spec()))
                    && p.prefix_spec() == trim_prefix(prefix@) && p.wf(),
                Err(e) => e == DavError::Status(BAD_REQUEST) && from_uri_spec(uri@, prefix@).is_none(),
            },
    {
        let mut plen: usize = prefix.len();
        assert(prefix@.subrange(0, plen as int) =~= prefix@);
        while plen > 0 && prefix[plen - 1] == SLASH
            invariant
                plen <= prefix@.len(),
                trim_prefix(prefix@) == trim_prefix(prefix@.subrange(0, plen as int)),
            decreases plen,
        {
            assert(prefix@.subrange(0, plen as int).drop_last() =~= prefix@.subrange(0, plen - 1));
            plen = plen - 1;
        }
        let ghost p = trim_prefix(prefix@);
        assert(p == prefix@.subrange(0, plen as int));
        proof {
            lemma_trim_twice(prefix@);
        }
        if uri.len() == 0 || uri[0] != SLASH || uri.len() < plen {
            return Err(DavError::Status(BAD_REQUEST));
        }
        let mut stored: Vec<u8> = Vec::new();
        let mut k: usize = 0;
        while k < plen
            invariant
                k <= plen,
                plen <= uri@.len(),
                plen <= prefix@.len(),
                stored@ == prefix@.subrange(0, k as int),
                uri@.subrange(0, k as int) == prefix@.subrange(0, k as int),
                p == prefix@.subrange(0, plen as int),
                p == trim_prefix(prefix@),
            decreases plen - k,
        {
            if uri[k] != prefix[k] {
                proof {
                    if uri@.subrange(0, plen as int) == p {
                        assert(uri@.subrange(0, plen as int)[k as int] == p[k as int]);
                    }
                }
                return Err(DavError::Status(BAD_REQUEST));
            }
            stored.push(prefix[k]);
            k += 1;
            assert(stored@ =~= prefix@.subrange(0, k as int));
            assert(uri@.subrange(0, k as int) =~= prefix@.subrange(0, k as int));
        }
        if uri.len() > plen && uri[plen] != SLASH {
            return Err(DavError::Status(BAD_REQUEST));
        }
        assert(under_prefix(uri@, prefix@));
        let ghost rest = uri@.subrange(plen as int, uri@.len() as int);
        let mut segs: Vec<Vec<u8>> = Vec::new();
        let mut cur: Vec<u8> = Vec::new();
        let mut esc: u8 = 0;
        let mut hi: u8 = 0;
        let mut bad: bool = false;
        let mut i: usize = plen;
        assert(uri@.subrange(plen as int, i as int) =~= Seq::<u8>::empty());
        assert(views(segs@) =~= Seq::<Seq<u8>>::empty());
        while i < uri.len()
            invariant
                plen <= i <= uri@.len(),
                esc <= 2,
                hi < 16,
                segments_ok(views(segs@)),
                bytes_ok(cur@),
                scan(uri@.subrange(plen as int, i as int)).bad == bad,
                !bad ==> scan(uri@.subrange(plen as int, i as int)) == (Scan {
                    segs: views(segs@),
                    cur: cur@,
                    esc: esc as int,
                    hi: hi,
                    bad: false,
                }),
            decreases uri@.len() - i,
        {
            let b = uri[i];
            proof {
                let s = uri@.subrange(plen as int, i + 1);
                assert(s.drop_last() =~= uri@.subrange(plen as int, i as int));
                assert(s.last() == b);
            }
            if bad {
            } else if esc == 1 {
                match hex_value(b) {
                    Some(v) => {
                        esc = 2;
                        hi = v;
                    },
                    None => {
                        bad = true;
                    },
                }
            } else if esc == 2 {
                match hex_value(b) {
                    Some(v) => {
                        let d: u8 = hi * 16 + v;
                        if d == SLASH || d == 0 {
                            bad = true;
                        } else {
                            cur.push(d);
                            esc = 0;
                        }
                    },
                    None => {
                        bad = true;
                    },
                }
            } else if b == PERCENT {
                esc = 1;
            } else if b == SLASH {
                let done = cur;
                cur = Vec::new();
                if !close(&mut segs, done) {
                    bad = true;
                }
            } else if b == 0 {
                bad = true;
            } else {
                cur.push(b);
            }
            i += 1;
        }
        assert(uri@.subrange(plen as int, i as int) =~= rest);
        if bad || esc != 0 {
            return Err(DavError::Status(BAD_REQUEST));
        }
        if !close(&mut segs, cur) {
            return Err(DavError::Status(BAD_REQUEST));
        }
        let collection = segs.len() == 0 || uri[uri.len() - 1] == SLASH;
        proof {
            if segs.len() != 0 {
                if rest.len() == 0 {
                    assert(scan(rest) == scan_start());
                }
                assert(rest.last() == uri@[uri@.len() - 1]);
            }
        }
        Ok(DavPath { segments: segs, collection: collection, prefix: stored })
    }

    /// Whether the path is written as a collection.
    pub fn is_collection(&self) -> (c: bool)
        ensures
            c == self.collection_spec(),
    {
        self.collection
    }

    /// Marks the path as a collection, so that its URL ends in a slash.
    pub fn add_slash(&mut self)
        ensures
            old(self).wf() ==> final(self).wf(),
            final(self).collection_spec(),
            final(self).segments_spec() == old(self).segments_spec(),
            final(self).prefix_spec() == old(self).prefix_spec(),
    {
        self.collection = true;
    }

    /// The segments of the path.
    pub fn segments(&self) -> (segs: &Vec<Vec<u8>>)
        ensures
            views(segs@) == self.segments_spec(),
    {
        &self.segments
    }

    /// The prefix that the path lies under.
    pub fn prefix(&self) -> (p: &Vec<u8>)
        ensures
            p@ == self.prefix_spec(),
    {
        &self.prefix
    }

    /// Whether two paths name the same resource: their segments are the same,
    /// whatever their collection flags say.
    pub fn same_resource(&self, other: &DavPath) -> (same: bool)
        ensures
            same == (self.segments_spec() == other.segments_spec()),
    {
        if self.segments.len() != other.segments.len() {
            assert(views(self.segments@).len() != views(other.segments@).len());
            return false;
        }
        let mut k: usize = 0;
        while k < self.segments.len()
            invariant
                k <= self.segments@.len(),
                self.segments@.len() == other.segments@.len(),
                forall|j: int| 0 <= j < k ==> views(self.segments@)[j] == views(other.segments@)[j],
            decreases self.segments@.len() - k,
        {
            if !bytes_eq(self.segments[k].as_slice(), other.segments[k].as_slice()) {
                assert(views(self.segments@)[k as int] != views(other.segments@)[k as int]);
                return false;
            }
            k += 1;
        }
        assert(views(self.segments@) =~= views(other.segments@));
        true
    }

    /// The collection that holds the resource; the root is its own parent.
    pub fn parent(&self) -> (p: DavPath)
        ensures
            self.wf() ==> p.wf(),
            p.collection_spec(),
            p.prefix_spec() == self.prefix_spec(),
            p.segments_spec() == if self.segments_spec().len() == 0 {
                self.segments_spec()
            } else {
                self.segments_spec().drop_last()
            },
    {
        let n: usize = if self.segments.len() == 0 {
            0
        } else {
            self.segments.len() - 1
        };
        let mut segs: Vec<Vec<u8>> = Vec::new();
        let mut k: usize = 0;
        while k < n
            invariant
                k <= n,
                n <= self.segments@.len(),
                views(segs@) =~= views(self.segments@).subrange(0, k as int),
            decreases n - k,
        {
            let seg = copy_bytes(self.segments[k].as_slice());
            let ghost before = segs@;
            segs.push(seg);
            k += 1;
            assert(views(segs@) =~= views(before).push(seg@));
        }
        proof {
            if self.segments@.len() == 0 {
                assert(views(segs@) =~= views(self.segments@));
            } else {
                assert(views(segs@) =~= views(self.segments@).drop_last());
            }
        }
        DavPath { segments: segs, collection: true, prefix: copy_bytes(self.prefix.as_slice()) }
    }

    /// Appends the path's URL below the prefix to `out`.
    fn write_url(&self, out: &mut Vec<u8>)
        ensures
            final(out)@ == old(out)@ + self.url(),
    {
        let ghost base = out@;
        let ghost all = views(self.segments@);
        let mut k: usize = 0;
        assert(out@ =~= base + encode_segments(all.subrange(0, 0)));
        while k < self.segments.len()
            invariant
                k <= self.segments@.len(),
                all == views(self.segments@),
                out@ == base + encode_segments(all.subrange(0, k as int)),
            decreases self.segments@.len() - k,
        {
            proof {
                let s = all.subrange(0, k + 1);
                assert(s.drop_last() =~= all.subrange(0, k as int));
                assert(s.last() == self.segments@[k as int]@);
            }
            let ghost mid = out@;
            out.push(SLASH);
            assert(out@ =~= mid + seq![SLASH]);
            push_encoded(out, &self.segments[k]);
            k += 1;
            assert(out@ =~= base + encode_segments(all.subrange(0, k as int)));
        }
        assert(all.subrange(0, k as int) =~= all);
        if self.segments.len() == 0 || self.collection {
            out.push(SLASH);
        }
        assert(out@ =~= base + self.url());
    }

    /// The path as a URL below the prefix, percent-encoded.
    pub fn as_url_bytes(&self) -> (url: Vec<u8>)
        ensures
            url@ == self.url(),
    {
        let mut out: Vec<u8> = Vec::new();
        self.write_url(&mut out);
        assert(out@ =~= self.url());
        out
    }

    /// The path as a URL with the prefix before it, percent-encoded.
    pub fn as_url_bytes_with_prefix(&self) -> (url: Vec<u8>)
        ensures
            url@ == self.url_with_prefix(),
    {
        let mut out: Vec<u8> = copy_bytes(self.prefix.as_slice());
        self.write_url(&mut out);
        out
    }
}

/// A vector with the bytes of `src`.
pub fn copy_bytes(src: &[u8]) -> (v: Vec<u8>)
    ensures
        v@ == src@,
{
    let mut v: Vec<u8> = Vec::new();
    let mut i: usize = 0;
    while i < src.len()
        invariant
            i <= src@.len(),
            v@ =~= src@.subrange(0, i as int),
        decreases src@.len() - i,
    {
        v.push(src[i]);
        i += 1;
    }
    assert(v@ =~= src@);
    v
}

/// Appends the percent-encoded form of `seg` to `out`.
fn push_encoded(out: &mut Vec<u8>, seg: &Vec<u8>)
    ensures
        final(out)@ == old(out)@ + encode_segment(seg@),
{
    let ghost base = out@;
    let mut j: usize = 0;
    assert(out@ =~= base + encode_segment(seg@.subrange(0, 0)));
    while j < seg.len()
        invariant
            j <= seg@.len(),
            out@ == base + encode_segment(seg@.subrange(0, j as int)),
        decreases seg@.len() - j,
    {
        let b = seg[j];
        proof {
            let s = seg@.subrange(0, j + 1);
            assert(s.drop_last() =~= seg@.subrange(0, j as int));
            assert(s.last() == b);
        }
        let ghost mid = out@;
        if is_unreserved(b) {
            out.push(b);
            assert(out@ =~= mid + encode_byte(b));
        } else {
            out.push(PERCENT);
            out.push(hex_char(b / 16));
            out.push(hex_char(b % 16));
            assert(out@ =~= mid + encode_byte(b));
        }
        j += 1;
        assert(out@ =~= base + encode_segment(seg@.subrange(0, j as int)));
    }
    assert(seg@.subrange(0, j as int) =~= seg@);
}

/// Trimming a trimmed prefix changes nothing.
pub proof fn lemma_trim_twice(prefix: Seq<u8>)
    ensures
        trim_prefix(trim_prefix(prefix)) == trim_prefix(prefix),
    decreases prefix.len(),
{
    if prefix.len() > 0 && prefix.last() == SLASH {
        lemma_trim_twice(prefix.drop_last());
    }
}

/// The scanner's state after all of `s`, begun in `st`.
pub open spec fn scan_from(st: Scan, s: Seq<u8>) -> Scan
    decreases s.len(),
{
    if s.len() == 0 {
        st
    } else {
        scan_step(scan_from(st, s.drop_last()), s.last())
    }
}

/// Whether the scanner stands between two bytes of a segment, with the
/// given segments finished and the given bytes of the next one read.
pub open spec fn at_rest(st: Scan, segs: Seq<Seq<u8>>, cur: Seq<u8>) -> bool {
    !st.bad && st.esc == 0 && st.segs == segs && st.cur == cur
}

proof fn lemma_scan_from_start(s: Seq<u8>)
    ensures
        scan(s) == scan_from(scan_start(), s),
    decreases s.len(),
{
    if s.len() > 0 {
        lemma_scan_from_start(s.drop_last());
    }
}

proof fn lemma_scan_concat(st: Scan, a: Seq<u8>, b: Seq<u8>)
    ensures
        scan_from(st, a + b) == scan_from(scan_from(st, a), b),
    decreases b.len(),
{
    if b.len() == 0 {
        assert(a + b =~= a);
    } else {
        assert((a + b).drop_last() =~= a + b.drop_last());
        assert((a + b).last() == b.last());
        lemma_scan_concat(st, a, b.drop_last());
    }
}

proof fn lemma_scan_one(st: Scan, b: u8)
    ensures
        scan_from(st, seq![b]) == scan_step(st, b),
{
    reveal_with_fuel(scan_from, 2);
    assert(seq![b].drop_last() =~= Seq::<u8>::empty());
    assert(seq![b].last() == b);
}

/// An encoded byte is read back as the byte.
proof fn lemma_scan_byte(st: Scan, b: u8)
    requires
        !st.bad,
        st.esc == 0,
        b != SLASH,
        b != 0,
    ensures
        at_rest(scan_from(st, encode_byte(b)), st.segs, st.cur.push(b)),
{
    if unreserved(b) {
        lemma_scan_one(st, b);
    } else {
        let h = hex_digit(b / 16);
        let l = hex_digit(b % 16);
        assert(hex_val(h) == Some((b / 16) as u8));
        assert(hex_val(l) == Some((b % 16) as u8));
        let e = encode_byte(b);
        assert(e =~= seq![PERCENT] + seq![h] + seq![l]);
        lemma_scan_concat(st, seq![PERCENT] + seq![h], seq![l]);
        lemma_scan_concat(st, seq![PERCENT], seq![h]);
        lemma_scan_one(st, PERCENT);
        let s1 = scan_step(st, PERCENT);
        lemma_scan_one(s1, h);
        let s2 = scan_step(s1, h);
        lemma_scan_one(s2, l);
        assert(s2.hi == b / 16);
        assert(((b / 16) * 16 + b % 16) as u8 == b);
    }
}

/// An encoded segment is read back as the segment.
proof fn lemma_scan_segment(st: Scan, seg: Seq<u8>)
    requires
        !st.bad,
        st.esc == 0,
        bytes_ok(seg),
    ensures
        at_rest(scan_from(st, encode_segment(seg)), st.segs, st.cur + seg),
    decreases seg.len(),
{
    if seg.len() == 0 {
        assert(st.cur + seg =~= st.cur);
    } else {
        let front = seg.drop_last();
        lemma_scan_segment(st, front);
        let mid = scan_from(st, encode_segment(front));
        lemma_scan_concat(st, encode_segment(front), encode_byte(seg.last()));
        lemma_scan_byte(mid, seg.last());
        assert((st.cur + front).push(seg.last()) =~= st.cur + seg);
    }
}

/// Encoded segments are read back as the segments: all but the last
/// are finished, the last is being read.
proof fn lemma_scan_segments(segs: Seq<Seq<u8>>)
    requires
        segments_ok(segs),
    ensures
        segs.len() == 0 ==> scan_from(scan_start(), encode_segments(segs)) == scan_start(),
        segs.len() > 0 ==> at_rest(
            scan_from(scan_start(), encode_segments(segs)),
            segs.drop_last(),
            segs.last(),
        ),
    decreases segs.len(),
{
    if segs.len() > 0 {
        let front = segs.drop_last();
        let last = segs.last();
        assert forall|i: int| 0 <= i < front.len() implies segment_ok(#[trigger] front[i]) by {
            assert(front[i] == segs[i]);
        }
        assert(segment_ok(segs[segs.len() - 1]));
        lemma_scan_segments(front);
        let a = encode_segments(front);
        let st1 = scan_from(scan_start(), a);
        lemma_scan_concat(scan_start(), a, seq![SLASH]);
        lemma_scan_one(st1, SLASH);
        let st2 = scan_step(st1, SLASH);
        if front.len() == 0 {
            assert(st2.segs =~= front);
        } else {
            assert(segment_ok(front[front.len() - 1]));
            assert(front.drop_last().push(front.last()) =~= front);
        }
        assert(at_rest(st2, front, Seq::<u8>::empty()));
        lemma_scan_concat(scan_start(), a + seq![SLASH], encode_segment(last));
        lemma_scan_segment(st2, last);
        assert(Seq::<u8>::empty() + last =~= last);
    }
}

/// No encoded segment holds a slash, and only the empty one is empty.
proof fn lemma_encoded_segment(seg: Seq<u8>)
    ensures
        forall|i: int| 0 <= i < encode_segment(seg).len() ==> encode_segment(seg)[i] != SLASH,
        seg.len() > 0 ==> encode_segment(seg).len() > 0,
    decreases seg.len(),
{
    if seg.len() > 0 {
        lemma_encoded_segment(seg.drop_last());
        let a = encode_segment(seg.drop_last());
        let b = seg.last();
        let e = encode_byte(b);
        assert(e.len() > 0);
        assert forall|i: int| 0 <= i < e.len() implies e[i] != SLASH by {
            assert(b / 16 < 16 && b % 16 < 16);
        }
        assert forall|i: int| 0 <= i < (a + e).len() implies (a + e)[i] != SLASH by {
            if i >= a.len() {
                assert((a + e)[i] == e[i - a.len()]);
            }
        }
    }
}

/// Encoded segments begin with a slash.
proof fn lemma_encoded_segments(segs: Seq<Seq<u8>>)
    ensures
        segs.len() > 0 ==> encode_segments(segs).len() > 0 && encode_segments(segs)[0] == SLASH,
    decreases segs.len(),
{
    if segs.len() > 0 {
        let front = encode_segments(segs.drop_last());
        lemma_encoded_segments(segs.drop_last());
        let head = front + seq![SLASH];
        assert(head.len() > 0 && head[0] == SLASH);
        assert((head + encode_segment(segs.last()))[0] == head[0]);
    }
}

/// Writing and reading are inverse: the URL of normalized segments under
/// a prefix, read under that prefix, gives the segments and the
/// collection flag back.
pub proof fn url_round_trip(segs: Seq<Seq<u8>>, collection: bool, prefix: Seq<u8>)
    requires
        segments_ok(segs),
        segs.len() == 0 ==> collection,
        prefix_ok(prefix),
    ensures
        from_uri_spec(prefix + url_spec(segs, collection), prefix) == Some((segs, collection)),
{
    let url = url_spec(segs, collection);
    let uri = prefix + url;
    let enc = encode_segments(segs);
    lemma_encoded_segments(segs);
    assert(url.len() > 0 && url[0] == SLASH);
    assert(uri.subrange(0, prefix.len() as int) =~= prefix);
    assert(uri.subrange(prefix.len() as int, uri.len() as int) =~= url);
    assert(under_prefix(uri, prefix));
    lemma_scan_from_start(url);
    lemma_scan_segments(segs);
    let st1 = scan_from(scan_start(), enc);
    if collection {
        assert(url =~= enc + seq![SLASH]);
        lemma_scan_concat(scan_start(), enc, seq![SLASH]);
        lemma_scan_one(st1, SLASH);
        let st2 = scan_step(st1, SLASH);
        if segs.len() == 0 {
            assert(st2.segs =~= segs);
        } else {
            assert(segment_ok(segs[segs.len() - 1]));
            assert(segs.drop_last().push(segs.last()) =~= segs);
        }
        assert(at_rest(st2, segs, Seq::<u8>::empty()));
    } else {
        assert(segment_ok(segs[segs.len() - 1]));
        assert(segs.drop_last().push(segs.last()) =~= segs);
        lemma_encoded_segment(segs.last());
        let tail = encode_segment(segs.last());
        assert(url.last() == tail[tail.len() - 1]);
    }
}

impl DavPath {
    /// A path that is written as a URL and read again is the same path.
    pub proof fn round_trip(&self)
        requires
            self.wf(),
        ensures
            from_uri_spec(self.url_with_prefix(), self.prefix_spec()) == Some(
                (self.segments_spec(), self.collection_spec()),
            ),
    {
        url_round_trip(self.segments_spec(), self.collection_spec(), self.prefix_spec());
    }
}

} // verus!
