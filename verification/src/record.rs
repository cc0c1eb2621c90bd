//! What the fixed-stride records of a metadata buffer have in common.

use crate::reader::{ParseError, Reader};
use vstd::prelude::*;

verus! {

/// A value with a fixed-width encoding that is read field by field, each
/// field through one bounds-checked read.
pub trait Record: Sized {
    /// Bytes that one encoded value occupies.
    spec fn stride() -> nat;

    /// The value encoded at `at` in `data`.
    spec fn decode(data: Seq<u8>, at: int) -> Self;

    /// The failure of a read at `at` in a buffer of `len` bytes that is too
    /// short for it: the overrun of the first field that does not fit.
    spec fn read_error(at: int, len: int) -> ParseError;

    /// The stride as a machine integer.
    fn size() -> (n: usize)
        ensures
            n == Self::stride(),
            n > 0,
    ;

    /// Reads one value at the cursor. On success the cursor has moved past
    /// the value; on failure it stands at the field that did not fit.
    fn read(r: &mut Reader) -> (res: Result<Self, ParseError>)
        ensures
            final(r).data == old(r).data,
            match res {
                Ok(v) => old(r).fits(Self::stride() as int) && v == Self::decode(
                    old(r).data@,
                    old(r).pos as int,
                ) && final(r).pos == old(r).pos + Self::stride(),
                Err(e) => !old(r).fits(Self::stride() as int) && e == Self::read_error(
                    old(r).pos as int,
                    old(r).data@.len() as int,
                ) && e == final(r).overrun(e->len),
            },
    ;
}

} // verus!
