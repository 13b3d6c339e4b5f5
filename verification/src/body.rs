//! Taking in a request body that is buffered: chunk after chunk, up to a limit.

use vstd::prelude::*;
use bytes::Bytes;
use crate::errors::{DavError, DavResult, IoErrorKind, PAYLOAD_TOO_LARGE};

verus! {

/// The largest body that is buffered for an operation that does not stream it.
pub const MAX_BODY: usize = 65536;

/// `bytes::Bytes`, a chunk of a body as the transport hands it over.
#[verifier::external_type_specification]
#[verifier::external_body]
pub struct ExBytes(bytes::Bytes);

/// The bytes that a chunk holds.
pub uninterp spec fn chunk_bytes(chunk: Bytes) -> Seq<u8>;

/// `Bytes::as_ref`: the chunk as the slice of the bytes that it holds.
#[verifier::external_body]
fn chunk_slice(chunk: &Bytes) -> (s: &[u8])
    ensures
        s@ == chunk_bytes(*chunk),
{
    chunk.as_ref()
}

/// What one item of a body stream holds: a chunk's bytes, or `None` where
/// the transport failed.
pub open spec fn item_bytes<E>(item: Result<Bytes, E>) -> Option<Seq<u8>> {
    match item {
        Ok(chunk) => Some(chunk_bytes(chunk)),
        Err(_) => None,
    }
}

/// What one more item makes of the bytes taken in so far: a failed read
/// ends the request with an I/O error, a chunk that would pass the limit
/// with 413, any other chunk is appended.
pub open spec fn take_item(data: Seq<u8>, item: Option<Seq<u8>>, max: int) -> Result<Seq<u8>, DavError> {
    match item {
        None => Err(DavError::IoError(IoErrorKind::UnexpectedEof)),
        Some(c) => if data.len() + c.len() > max {
            Err(DavError::Status(PAYLOAD_TOO_LARGE))
        } else {
            Ok(data + c)
        },
    }
}

/// What a whole stream of items gives: the first failure, or all the bytes.
pub open spec fn drained(items: Seq<Option<Seq<u8>>>, max: int) -> Result<Seq<u8>, DavError>
    decreases items.len(),
{
    if items.len() == 0 {
        Ok(Seq::empty())
    } else {
        match drained(items.drop_last(), max) {
            Ok(data) => take_item(data, items.last(), max),
            Err(e) => Err(e),
        }
    }
}

/// The number of bytes in all the chunks of a stream that did not fail.
pub open spec fn total_len(items: Seq<Option<Seq<u8>>>) -> int
    decreases items.len(),
{
    if items.len() == 0 {
        0
    } else {
        total_len(items.drop_last()) + match items.last() {
            Some(c) => c.len() as int,
            None => 0,
        }
    }
}

/// The items of a stream, each by what it holds.
pub open spec fn items_view<E>(items: Seq<Result<Bytes, E>>) -> Seq<Option<Seq<u8>>> {
    items.map_values(|item: Result<Bytes, E>| item_bytes(item))
}

/// The bytes of a body taken in so far, and the limit they stay under.
pub struct BodyBuffer {
    data: Vec<u8>,
    max_size: usize,
}

impl BodyBuffer {
    /// The bytes taken in so far.
    pub closed spec fn data_spec(&self) -> Seq<u8> {
        self.data@
    }

    /// The limit.
    pub closed spec fn max_spec(&self) -> int {
        self.max_size as int
    }

    /// The bytes never pass the limit.
    pub closed spec fn wf(&self) -> bool {
        self.data@.len() <= self.max_size
    }

    /// An empty buffer with the given limit.
    pub fn new(max_size: usize) -> (b: BodyBuffer)
        ensures
            b.wf(),
            b.data_spec() == Seq::<u8>::empty(),
            b.max_spec() == max_size,
    {
        BodyBuffer { data: Vec::new(), max_size: max_size }
    }

    /// Takes in the next item of the body stream. On an error the buffer
    /// stays as it was, so that a chunk beyond the limit is never kept.
    pub fn accept<E>(&mut self, item: &Result<Bytes, E>) -> (r: DavResult<()>)
        requires
            old(self).wf(),
        ensures
            final(self).wf(),
            final(self).max_spec() == old(self).max_spec(),
            match take_item(old(self).data_spec(), item_bytes(*item), old(self).max_spec()) {
                Ok(data) => r == Ok::<(), DavError>(()) && final(self).data_spec() == data,
                Err(e) => r == Err::<(), DavError>(e) && final(self).data_spec() == old(self).data_spec(),
            },
    {
        match item {
            Err(_) => Err(DavError::IoError(IoErrorKind::UnexpectedEof)),
            Ok(chunk) => {
                let bytes = chunk_slice(chunk);
                if bytes.len() > self.max_size - self.data.len() {
                    Err(DavError::Status(PAYLOAD_TOO_LARGE))
                } else {
                    let ghost before = self.data@;
                    self.data.extend_from_slice(bytes);
                    assert(self.data@ =~= before + bytes@);
                    Ok(())
                }
            },
        }
    }

    /// The number of bytes taken in so far.
    pub fn len(&self) -> (n: usize)
        ensures
            n == self.data_spec().len(),
    {
        self.data.len()
    }

    /// Hands out the bytes.
    pub fn into_data(self) -> (data: Vec<u8>)
        ensures
            data@ == self.data_spec(),
    {
        self.data
    }
}

/// Once a stream has failed, nothing that follows changes the failure.
pub proof fn lemma_drained_sticky(items: Seq<Option<Seq<u8>>>, k: int, max: int)
    requires
        0 <= k <= items.len(),
        drained(items.subrange(0, k), max).is_err(),
    ensures
        drained(items, max) == drained(items.subrange(0, k), max),
    decreases items.len(),
{
    if k == items.len() {
        assert(items.subrange(0, k) =~= items);
    } else {
        assert(items.drop_last().subrange(0, k) =~= items.subrange(0, k));
        lemma_drained_sticky(items.drop_last(), k, max);
    }
}

/// What was taken in without a failure is as long as the chunks together,
/// and within the limit.
pub proof fn lemma_drained_len(items: Seq<Option<Seq<u8>>>, max: int)
    ensures
        drained(items, max) matches Ok(data) ==> data.len() == total_len(items) && (items.len() > 0
            ==> data.len() <= max),
    decreases items.len(),
{
    if items.len() > 0 {
        lemma_drained_len(items.drop_last(), max);
    }
}

/// A body that is larger than the limit is refused with 413, wherever its
/// chunks are cut, as long as the transport does not fail first.
pub proof fn oversized_body_is_refused(items: Seq<Option<Seq<u8>>>, max: int)
    requires
        forall|i: int| 0 <= i < items.len() ==> items[i].is_some(),
        total_len(items) > max,
        max >= 0,
    ensures
        drained(items, max) == Err::<Seq<u8>, DavError>(DavError::Status(PAYLOAD_TOO_LARGE)),
    decreases items.len(),
{
    if items.len() > 0 {
        let front = items.drop_last();
        lemma_drained_len(front, max);
        if total_len(front) > max {
            oversized_body_is_refused(front, max);
        } else {
            lemma_drained_some_ok(front, max);
        }
    }
}

/// A stream that does not fail and stays within the limit is taken in whole.
pub proof fn lemma_drained_some_ok(items: Seq<Option<Seq<u8>>>, max: int)
    requires
        forall|i: int| 0 <= i < items.len() ==> items[i].is_some(),
        total_len(items) <= max,
    ensures
        drained(items, max).is_ok(),
    decreases items.len(),
{
    if items.len() > 0 {
        let front = items.drop_last();
        assert(total_len(front) <= total_len(items));
        lemma_drained_some_ok(front, max);
        lemma_drained_len(front, max);
    }
}

/// Drains a body that is to be buffered: all its bytes, or the first failure.
pub fn read_request<E>(body: &Vec<Result<Bytes, E>>, max_size: usize) -> (r: DavResult<Vec<u8>>)
    ensures
        match drained(items_view(body@), max_size as int) {
            Ok(data) => r.is_ok() && r.unwrap()@ == data,
            Err(e) => r == Err::<Vec<u8>, DavError>(e),
        },
{
    let ghost items = items_view(body@);
    let mut buf = BodyBuffer::new(max_size);
    let mut k: usize = 0;
    assert(items.subrange(0, 0) =~= Seq::<Option<Seq<u8>>>::empty());
    while k < body.len()
        invariant
            buf.wf(),
            buf.max_spec() == max_size,
            k <= body@.len(),
            items == items_view(body@),
            drained(items.subrange(0, k as int), max_size as int) == Ok::<Seq<u8>, DavError>(
                buf.data_spec(),
            ),
        decreases body@.len() - k,
    {
        let ghost before = buf.data_spec();
        let ghost s = items.subrange(0, k + 1);
        proof {
            assert(s.drop_last() =~= items.subrange(0, k as int));
            assert(s.last() == item_bytes(body@[k as int]));
            assert(drained(s, max_size as int) == take_item(before, s.last(), max_size as int));
        }
        match buf.accept(&body[k]) {
            Ok(()) => {},
            Err(e) => {
                proof {
                    lemma_drained_sticky(items, k + 1, max_size as int);
                }
                return Err(e);
            },
        }
        k += 1;
    }
    assert(items.subrange(0, k as int) =~= items);
    Ok(buf.into_data())
}

} // verus!
