//! The closed set of WebDAV operations, the classifier from method tokens,
//! and the set of permitted operations.

use vstd::prelude::*;
use crate::errors::{DavError, DavResult, METHOD_NOT_ALLOWED};

verus! {

/// The operations that the engine knows.
#[derive(Clone, Copy, Debug, PartialEq, Eq, Structural)]
pub enum Method {
    Head,
    Get,
    Put,
    Patch,
    Options,
    PropFind,
    PropPatch,
    MkCol,
    Copy,
    Move,
    Delete,
    Lock,
    Unlock,
}

impl Method {
    /// The position of the operation's bit in an `AllowedMethods`.
    pub open spec fn index_spec(self) -> u32 {
        match self {
            Method::Head => 0,
            Method::Get => 1,
            Method::Put => 2,
            Method::Patch => 3,
            Method::Options => 4,
            Method::PropFind => 5,
            Method::PropPatch => 6,
            Method::MkCol => 7,
            Method::Copy => 8,
            Method::Move => 9,
            Method::Delete => 10,
            Method::Lock => 11,
            Method::Unlock => 12,
        }
    }

    /// The token by which HTTP names the operation (`HEAD`, `GET`, `PUT`,
    /// `PATCH`, `OPTIONS`, `PROPFIND`, `PROPPATCH`, `MKCOL`, `COPY`, `MOVE`,
    /// `DELETE`, `LOCK`, `UNLOCK`), as ASCII codes.
    pub open spec fn token_spec(self) -> Seq<u8> {
        match self {
            Method::Head => seq![72u8, 69u8, 65u8, 68u8],
            Method::Get => seq![71u8, 69u8, 84u8],
            Method::Put => seq![80u8, 85u8, 84u8],
            Method::Patch => seq![80u8, 65u8, 84u8, 67u8, 72u8],
            Method::Options => seq![79u8, 80u8, 84u8, 73u8, 79u8, 78u8, 83u8],
            Method::PropFind => seq![80u8, 82u8, 79u8, 80u8, 70u8, 73u8, 78u8, 68u8],
            Method::PropPatch => seq![80u8, 82u8, 79u8, 80u8, 80u8, 65u8, 84u8, 67u8, 72u8],
            Method::MkCol => seq![77u8, 75u8, 67u8, 79u8, 76u8],
            Method::Copy => seq![67u8, 79u8, 80u8, 89u8],
            Method::Move => seq![77u8, 79u8, 86u8, 69u8],
            Method::Delete => seq![68u8, 69u8, 76u8, 69u8, 84u8, 69u8],
            Method::Lock => seq![76u8, 79u8, 67u8, 75u8],
            Method::Unlock => seq![85u8, 78u8, 76u8, 79u8, 67u8, 75u8],
        }
    }

    /// The operation whose bit stands at position `i`.
    pub open spec fn at_spec(i: int) -> Method {
        if i == 0 {
            Method::Head
        } else if i == 1 {
            Method::Get
        } else if i == 2 {
            Method::Put
        } else if i == 3 {
            Method::Patch
        } else if i == 4 {
            Method::Options
        } else if i == 5 {
            Method::PropFind
        } else if i == 6 {
            Method::PropPatch
        } else if i == 7 {
            Method::MkCol
        } else if i == 8 {
            Method::Copy
        } else if i == 9 {
            Method::Move
        } else if i == 10 {
            Method::Delete
        } else if i == 11 {
            Method::Lock
        } else {
            Method::Unlock
        }
    }

    /// The operation whose bit stands at position `i`.
    pub fn at(i: u32) -> (m: Method)
        requires
            i < 13,
        ensures
            m == Method::at_spec(i as int),
            m.index_spec() == i,
    {
        if i == 0 {
            Method::Head
        } else if i == 1 {
            Method::Get
        } else if i == 2 {
            Method::Put
        } else if i == 3 {
            Method::Patch
        } else if i == 4 {
            Method::Options
        } else if i == 5 {
            Method::PropFind
        } else if i == 6 {
            Method::PropPatch
        } else if i == 7 {
            Method::MkCol
        } else if i == 8 {
            Method::Copy
        } else if i == 9 {
            Method::Move
        } else if i == 10 {
            Method::Delete
        } else if i == 11 {
            Method::Lock
        } else {
            Method::Unlock
        }
    }

    pub fn index(self) -> (i: u32)
        ensures
            i == self.index_spec(),
            i < 13,
    {
        match self {
            Method::Head => 0,
            Method::Get => 1,
            Method::Put => 2,
            Method::Patch => 3,
            Method::Options => 4,
            Method::PropFind => 5,
            Method::PropPatch => 6,
            Method::MkCol => 7,
            Method::Copy => 8,
            Method::Move => 9,
            Method::Delete => 10,
            Method::Lock => 11,
            Method::Unlock => 12,
        }
    }

    /// The operation's token as bytes.
    pub fn token(self) -> (t: Vec<u8>)
        ensures
            t@ == self.token_spec(),
    {
        let t: Vec<u8> = match self {
            Method::Head => vec![72u8, 69u8, 65u8, 68u8],
            Method::Get => vec![71u8, 69u8, 84u8],
            Method::Put => vec![80u8, 85u8, 84u8],
            Method::Patch => vec![80u8, 65u8, 84u8, 67u8, 72u8],
            Method::Options => vec![79u8, 80u8, 84u8, 73u8, 79u8, 78u8, 83u8],
            Method::PropFind => vec![80u8, 82u8, 79u8, 80u8, 70u8, 73u8, 78u8, 68u8],
            Method::PropPatch => vec![80u8, 82u8, 79u8, 80u8, 80u8, 65u8, 84u8, 67u8, 72u8],
            Method::MkCol => vec![77u8, 75u8, 67u8, 79u8, 76u8],
            Method::Copy => vec![67u8, 79u8, 80u8, 89u8],
            Method::Move => vec![77u8, 79u8, 86u8, 69u8],
            Method::Delete => vec![68u8, 69u8, 76u8, 69u8, 84u8, 69u8],
            Method::Lock => vec![76u8, 79u8, 67u8, 75u8],
            Method::Unlock => vec![85u8, 78u8, 76u8, 79u8, 67u8, 75u8],
        };
        assert(t@ =~= self.token_spec());
        t
    }

    /// Whether the operation takes its body as a stream, unbuffered.
    pub open spec fn streams_body_spec(self) -> bool {
        self == Method::Put || self == Method::Patch
    }

    /// Whether a request for the operation may carry a body at all.
    pub open spec fn accepts_body_spec(self) -> bool {
        self == Method::Put || self == Method::Patch || self == Method::PropFind
            || self == Method::PropPatch || self == Method::Lock
    }

    pub fn streams_body(self) -> (b: bool)
        ensures
            b == self.streams_body_spec(),
    {
        match self {
            Method::Put | Method::Patch => true,
            _ => false,
        }
    }

    pub fn accepts_body(self) -> (b: bool)
        ensures
            b == self.accepts_body_spec(),
    {
        match self {
            Method::Put | Method::Patch | Method::PropFind | Method::PropPatch | Method::Lock => true,
            _ => false,
        }
    }
}

/// Whether two byte strings are the same.
pub fn bytes_eq(a: &[u8], b: &[u8]) -> (same: bool)
    ensures
        same == (a@ == b@),
{
    if a.len() != b.len() {
        return false;
    }
    let mut i: usize = 0;
    while i < a.len()
        invariant
            a@.len() == b@.len(),
            i <= a@.len(),
            forall|j: int| 0 <= j < i ==> a@[j] == b@[j],
        decreases a@.len() - i,
    {
        if a[i] != b[i] {
            return false;
        }
        i += 1;
    }
    assert(a@ =~= b@);
    true
}

/// The operation that a token names, if any.
pub open spec fn classify(token: Seq<u8>) -> Option<Method> {
    if token == Method::Head.token_spec() {
        Some(Method::Head)
    } else if token == Method::Get.token_spec() {
        Some(Method::Get)
    } else if token == Method::Put.token_spec() {
        Some(Method::Put)
    } else if token == Method::Patch.token_spec() {
        Some(Method::Patch)
    } else if token == Method::Options.token_spec() {
        Some(Method::Options)
    } else if token == Method::PropFind.token_spec() {
        Some(Method::PropFind)
    } else if token == Method::PropPatch.token_spec() {
        Some(Method::PropPatch)
    } else if token == Method::MkCol.token_spec() {
        Some(Method::MkCol)
    } else if token == Method::Copy.token_spec() {
        Some(Method::Copy)
    } else if token == Method::Move.token_spec() {
        Some(Method::Move)
    } else if token == Method::Delete.token_spec() {
        Some(Method::Delete)
    } else if token == Method::Lock.token_spec() {
        Some(Method::Lock)
    } else if token == Method::Unlock.token_spec() {
        Some(Method::Unlock)
    } else {
        None
    }
}

/// Maps an HTTP method token to the operation that it names. A token that
/// names none is refused with 405.
pub fn dav_method(token: &[u8]) -> (r: DavResult<Method>)
    ensures
        r == match classify(token@) {
            Some(m) => Ok::<Method, DavError>(m),
            None => Err::<Method, DavError>(DavError::Status(METHOD_NOT_ALLOWED)),
        },
{
    let all: [Method; 13] = [
        Method::Head,
        Method::Get,
        Method::Put,
        Method::Patch,
        Method::Options,
        Method::PropFind,
        Method::PropPatch,
        Method::MkCol,
        Method::Copy,
        Method::Move,
        Method::Delete,
        Method::Lock,
        Method::Unlock,
    ];
    let mut i: usize = 0;
    while i < 13
        invariant
            i <= 13,
            all@.len() == 13,
            forall|j: int| 0 <= j < 13 ==> (#[trigger] all@[j]).index_spec() == j,
            forall|j: int| 0 <= j < i ==> token@ != (#[trigger] all@[j]).token_spec(),
        decreases 13 - i,
    {
        let m = all[i];
        let name = m.token();
        if bytes_eq(token, name.as_slice()) {
            return Ok(m);
        }
        i += 1;
    }
    Err(DavError::Status(METHOD_NOT_ALLOWED))
}

/// Every token that names an operation is classified as that operation.
pub proof fn classify_token(m: Method)
    ensures
        classify(m.token_spec()) == Some(m),
{
}

/// A set of operations, one bit for each.
#[derive(Clone, Copy, Debug, PartialEq, Eq, Structural)]
pub struct AllowedMethods(pub u32);

/// Two operations with the same bit are the same operation.
proof fn lemma_index_injective(a: Method, b: Method)
    ensures
        a.index_spec() == b.index_spec() <==> a == b,
{
}

/// Two one-bit masks meet exactly when they are the same bit.
proof fn lemma_bits_meet(i: u32, j: u32)
    requires
        i < 13,
        j < 13,
    ensures
        ((1u32 << i) & (1u32 << j) != 0) <==> i == j,
{
    assert(((1u32 << i) & (1u32 << j) != 0) <==> i == j) by (bit_vector)
        requires
            i < 13,
            j < 13,
    ;
}

/// A bit is set in a union exactly when it is set in one of the two sides.
proof fn lemma_union_bit(w: u32, a: u32, b: u32)
    ensures
        ((w | a) & b != 0) <==> (w & b != 0 || a & b != 0),
{
    assert(((w | a) & b != 0) <==> (w & b != 0 || a & b != 0)) by (bit_vector);
}

/// The thirteen low bits hold every one-bit mask of an operation.
proof fn lemma_full_bit(j: u32)
    requires
        j < 13,
    ensures
        0x1fffu32 & (1u32 << j) != 0,
        0u32 & (1u32 << j) == 0,
{
    assert(0x1fffu32 & (1u32 << j) != 0) by (bit_vector)
        requires
            j < 13,
    ;
    assert(0u32 & (1u32 << j) == 0) by (bit_vector);
}

impl View for AllowedMethods {
    type V = Set<Method>;

    /// The operations that the set permits.
    open spec fn view(&self) -> Set<Method> {
        Set::new(|m: Method| self.allowed_spec(m))
    }
}

impl AllowedMethods {
    /// Whether the bit of `m` is set.
    pub open spec fn allowed_spec(self, m: Method) -> bool {
        self.0 & (1u32 << m.index_spec()) != 0
    }

    /// The set that permits nothing.
    pub fn none() -> (a: AllowedMethods)
        ensures
            a@ == Set::<Method>::empty(),
            forall|m: Method| !a.allowed_spec(m),
    {
        let a = AllowedMethods(0);
        proof {
            assert forall|m: Method| !a.allowed_spec(m) by {
                lemma_full_bit(m.index_spec());
            }
            assert(a@ =~= Set::<Method>::empty());
        }
        a
    }

    /// The set that permits every operation.
    pub fn all() -> (a: AllowedMethods)
        ensures
            a@ == Set::<Method>::full(),
            forall|m: Method| a.allowed_spec(m),
    {
        let a = AllowedMethods(0x1fff);
        proof {
            assert forall|m: Method| a.allowed_spec(m) by {
                lemma_full_bit(m.index_spec());
            }
            assert(a@ =~= Set::<Method>::full());
        }
        a
    }

    /// Permits `m` besides what was permitted before.
    pub fn add(&mut self, m: Method)
        ensures
            final(self)@ == old(self)@.insert(m),
            forall|x: Method| #[trigger]
                final(self).allowed_spec(x) == (old(self).allowed_spec(x) || x == m),
    {
        let i = m.index();
        let ghost before = *self;
        self.0 = self.0 | (1u32 << i);
        proof {
            assert forall|x: Method| #[trigger]
                self.allowed_spec(x) == (before.allowed_spec(x) || x == m) by {
                lemma_union_bit(before.0, 1u32 << i, 1u32 << x.index_spec());
                lemma_bits_meet(i, x.index_spec());
                lemma_index_injective(m, x);
            }
            assert forall|x: Method| self@.contains(x) == before@.insert(m).contains(x) by {
                assert(self.allowed_spec(x) == (before.allowed_spec(x) || x == m));
            }
            assert(self@ =~= before@.insert(m));
        }
    }

    /// Whether `m` is permitted.
    pub fn allowed(&self, m: Method) -> (yes: bool)
        ensures
            yes == self@.contains(m),
            yes == self.allowed_spec(m),
    {
        let i = m.index();
        self.0 & (1u32 << i) != 0
    }
}

} // verus!
