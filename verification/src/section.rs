//! The regions of a buffer that its header declares: byte sections that are
//! taken whole, and families of fixed-stride records.

use crate::reader::{ParseError, Reader};
use crate::record::Record;
use vstd::arithmetic::div_mod::{lemma_fundamental_div_mod, lemma_fundamental_div_mod_converse};
use vstd::prelude::*;
use vstd::slice::slice_subrange;

verus! {

/// A signed header field taken as a position or a size: the unsigned machine
/// word with the same bits. A negative field thus stands for a position or a
/// size of more than `i32::MAX` bytes.
pub open spec fn unsigned(field: i32) -> int {
    (field as usize) as int
}

/// A field that is not negative stands for itself; a negative one stands
/// for more than any field that is not negative.
pub proof fn lemma_unsigned(field: i32)
    ensures
        field >= 0 ==> unsigned(field) == field,
        field < 0 ==> unsigned(field) > i32::MAX,
{
    assert(field < 0 ==> (field as usize) > 0x7fff_ffffusize) by (bit_vector);
}

/// Whether the byte section of `size` bytes at `offset` lies inside a buffer
/// of `len` bytes.
pub open spec fn section_fits(len: int, offset: i32, size: i32) -> bool {
    unsigned(offset) + unsigned(size) <= len
}

/// The bytes of the section of `size` bytes at `offset`.
pub open spec fn section(data: Seq<u8>, offset: i32, size: i32) -> Seq<u8> {
    data.subrange(unsigned(offset), unsigned(offset) + unsigned(size))
}

/// How many whole records of `stride` bytes a family of `size` bytes holds;
/// bytes beyond the last whole record are not part of any record.
pub open spec fn record_count(size: i32, stride: nat) -> nat {
    (unsigned(size) / stride as int) as nat
}

/// Whether every record of the family lies inside a buffer of `len` bytes.
/// A family without records fits wherever it is declared to start.
pub open spec fn family_fits<T: Record>(len: int, offset: i32, size: i32) -> bool {
    let count = record_count(size, T::stride());
    count == 0 || unsigned(offset) + count * T::stride() <= len
}

/// The records of the family of `size` bytes at `offset`, in order.
pub open spec fn family<T: Record>(data: Seq<u8>, offset: i32, size: i32) -> Seq<T> {
    Seq::new(
        record_count(size, T::stride()),
        |i: int| T::decode(data, unsigned(offset) + i * T::stride()),
    )
}

/// Where the first record starts that does not lie inside a buffer of `len`
/// bytes, for records of `stride` bytes read back to back from `start`.
pub open spec fn first_unfit_record(start: int, stride: nat, len: int) -> int {
    if len < start {
        start
    } else {
        start + ((len - start) / stride as int) * stride
    }
}

/// The failure of reading a family that does not fit: the failure of its
/// first record that does not fit.
pub open spec fn family_error<T: Record>(len: int, offset: i32) -> ParseError {
    T::read_error(first_unfit_record(unsigned(offset), T::stride(), len), len)
}

/// A byte section whose declared offset and size are not negative and add
/// up to more than the length of the buffer does not fit.
pub proof fn lemma_section_beyond_buffer(len: int, offset: i32, size: i32)
    requires
        offset >= 0,
        size >= 0,
        offset + size > len,
    ensures
        !section_fits(len, offset, size),
{
    lemma_unsigned(offset);
    lemma_unsigned(size);
}

/// A family of at least one record whose declared size is a whole number
/// of records, and whose declared offset and size add up to more than the
/// length of the buffer, does not fit. (Declared bytes that do not make up a
/// whole record are not read, and so cannot fail.)
pub proof fn lemma_family_beyond_buffer<T: Record>(len: int, offset: i32, size: i32)
    requires
        T::stride() > 0,
        offset >= 0,
        size > 0,
        (size as int) % (T::stride() as int) == 0,
        offset + size > len,
    ensures
        !family_fits::<T>(len, offset, size),
{
    let bytes = size as int;
    let stride = T::stride() as int;
    lemma_unsigned(offset);
    lemma_unsigned(size);
    lemma_fundamental_div_mod(bytes, stride);
    assert((bytes / stride) * stride == stride * (bytes / stride)) by (nonlinear_arith);
}

/// Borrows the section of `size` bytes at `offset`.
pub fn read_section<'a>(data: &'a [u8], offset: i32, size: i32) -> (res: Result<
    &'a [u8],
    ParseError,
>)
    ensures
        match res {
            Ok(s) => section_fits(data@.len() as int, offset, size) && s@ == section(
                data@,
                offset,
                size,
            ),
            Err(e) => !section_fits(data@.len() as int, offset, size) && e
                == ParseError::SectionOutOfBounds,
        },
{
    let len: usize = data.len();
    let start: usize = #[verifier::truncate] (offset as usize);
    match start.checked_add(#[verifier::truncate] (size as usize)) {
        Some(end) => {
            if end <= len {
                Ok(slice_subrange(data, start, end))
            } else {
                Err(ParseError::SectionOutOfBounds)
            }
        },
        None => Err(ParseError::SectionOutOfBounds),
    }
}

/// Reads the records of the family of `size` bytes at `offset`, each through
/// the bounds-checked cursor, and stops at the first failure.
pub fn read_family<T: Record>(data: &[u8], offset: i32, size: i32) -> (res: Result<
    Vec<T>,
    ParseError,
>)
    ensures
        match res {
            Ok(v) => family_fits::<T>(data@.len() as int, offset, size) && v@ == family::<T>(
                data@,
                offset,
                size,
            ),
            Err(e) => !family_fits::<T>(data@.len() as int, offset, size) && e == family_error::<
                T,
            >(data@.len() as int, offset),
        },
{
    let stride: usize = T::size();
    let declared: usize = #[verifier::truncate] (size as usize);
    let count: usize = declared / stride;
    let mut r = Reader::new(data, #[verifier::truncate] (offset as usize));
    let mut out: Vec<T> = Vec::new();
    let ghost start = unsigned(offset);
    let ghost len = data@.len() as int;
    let mut i: usize = 0;
    while i < count
        invariant
            r.data == data,
            len == data@.len(),
            stride == T::stride(),
            stride > 0,
            start == unsigned(offset),
            count == record_count(size, T::stride()),
            i <= count,
            r.pos == start + i * stride,
            i > 0 ==> r.pos <= len,
            out@.len() == i,
            forall|j: int| 0 <= j < i ==> out@[j] == T::decode(data@, start + j * stride),
        decreases count - i,
    {
        let ghost at = r.pos as int;
        match T::read(&mut r) {
            Ok(v) => {
                out.push(v);
            },
            Err(e) => {
                proof {
                    assert((i + 1) * stride <= count * stride) by (nonlinear_arith)
                        requires
                            i + 1 <= count,
                            stride > 0,
                    ;
                    assert((i + 1) * stride == i * stride + stride) by (nonlinear_arith);
                    if len >= start {
                        lemma_fundamental_div_mod_converse(
                            len - start,
                            stride as int,
                            i as int,
                            len - at,
                        );
                    }
                }
                return Err(e);
            },
        }
        proof {
            assert((i + 1) * stride == i * stride + stride) by (nonlinear_arith);
        }
        i += 1;
    }
    proof {
        assert(out@ =~= family::<T>(data@, offset, size));
    }
    Ok(out)
}

} // verus!
