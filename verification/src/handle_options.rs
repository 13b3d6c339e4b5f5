//! OPTIONS: the operations that a request may use, as an `Allow` header.

use vstd::prelude::*;
use vstd::string::StringSliceAdditionalSpecFns;
use crate::davhandler::{permitted, DavInner};
use crate::davpath::copy_bytes;
use crate::method::Method;
use crate::response::{DavResponse, Header};

verus! {

pub const OK: u16 = 200;

pub const COMMA: u8 = 44;

/// The tokens of the permitted ones among the first `n` operations, in
/// the order of their bits, with a comma between two of them.
pub open spec fn allow_value(set: Set<Method>, n: int) -> Seq<u8>
    decreases n,
{
    if n <= 0 {
        Seq::empty()
    } else {
        let before = allow_value(set, n - 1);
        let m = Method::at_spec(n - 1);
        if !set.contains(m) {
            before
        } else if before.len() == 0 {
            m.token_spec()
        } else {
            before + seq![COMMA] + m.token_spec()
        }
    }
}

impl<F: Clone, L: Clone> DavInner<F, L> {
    /// Answers an OPTIONS request without a look at any backend: 200, and
    /// an `Allow` header that names the operations of the context's set.
    pub fn handle_options(&self) -> (res: DavResponse)
        ensures
            res@ == (OK, seq![("Allow".spec_bytes(), allow_value(permitted(self.allow), 13))]),
    {
        let mut value: Vec<u8> = Vec::new();
        let mut i: u32 = 0;
        while i < 13
            invariant
                i <= 13,
                value@ == allow_value(permitted(self.allow), i as int),
            decreases 13 - i,
        {
            let m = Method::at(i);
            let listed = match &self.allow {
                Some(a) => a.allowed(m),
                None => true,
            };
            if listed {
                let ghost before = value@;
                if value.len() > 0 {
                    value.push(COMMA);
                }
                let mut token = m.token();
                value.append(&mut token);
                assert(value@ =~= if before.len() == 0 {
                    m.token_spec()
                } else {
                    before + seq![COMMA] + m.token_spec()
                });
            }
            i += 1;
        }
        let mut res = DavResponse::new(OK);
        res.push_header(Header { name: copy_bytes("Allow".as_bytes()), value: value });
        assert(res@.1 =~= seq![("Allow".spec_bytes(), allow_value(permitted(self.allow), 13))]);
        res
    }
}

} // verus!
