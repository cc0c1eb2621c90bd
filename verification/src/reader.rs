//! A bounds-checked cursor over a byte buffer, and the little-endian
//! interpretation of the bytes it reads.

use vstd::prelude::*;
use vstd::slice::slice_subrange;

verus! {

/// Why decoding a buffer failed.
#[derive(Debug, Clone, Copy, PartialEq, Eq, Structural)]
pub enum ParseError {
    /// A primitive read of `len` bytes at `offset` would pass the end of the buffer.
    OutOfBounds { offset: usize, len: usize },
    /// A section declared by the header does not lie inside the buffer.
    SectionOutOfBounds,
}

/// The 16-bit value whose little-endian encoding starts at `at` in `s`.
pub open spec fn le_u16(s: Seq<u8>, at: int) -> u16 {
    (s[at] as u16) | (s[at + 1] as u16) << 8
}

/// The 32-bit value whose little-endian encoding starts at `at` in `s`.
pub open spec fn le_u32(s: Seq<u8>, at: int) -> u32 {
    (s[at] as u32) | (s[at + 1] as u32) << 8 | (s[at + 2] as u32) << 16 | (s[at + 3] as u32) << 24
}

/// The signed 32-bit value with the bit pattern of `le_u32(s, at)`.
pub open spec fn le_i32(s: Seq<u8>, at: int) -> i32 {
    le_u32(s, at) as i32
}

/// The four bytes of the little-endian encoding of `v`.
pub open spec fn u32_le_bytes(v: u32) -> Seq<u8> {
    seq![
        (v & 0xff) as u8,
        ((v >> 8) & 0xff) as u8,
        ((v >> 16) & 0xff) as u8,
        ((v >> 24) & 0xff) as u8,
    ]
}

/// Encoding what four bytes decode to gives the four bytes back.
pub proof fn lemma_le_bytes_of_decoded(s: Seq<u8>, at: int)
    requires
        0 <= at,
        at + 4 <= s.len(),
    ensures
        u32_le_bytes(le_u32(s, at)) == s.subrange(at, at + 4),
{
    let v = le_u32(s, at);
    let b0 = s[at];
    let b1 = s[at + 1];
    let b2 = s[at + 2];
    let b3 = s[at + 3];
    assert((v & 0xff) as u8 == b0 && ((v >> 8) & 0xff) as u8 == b1 && ((v >> 16) & 0xff) as u8
        == b2 && ((v >> 24) & 0xff) as u8 == b3) by (bit_vector)
        requires
            v == (b0 as u32) | (b1 as u32) << 8 | (b2 as u32) << 16 | (b3 as u32) << 24,
    ;
    assert(u32_le_bytes(v) =~= s.subrange(at, at + 4));
}

/// The `n` 16-bit values encoded back to back from `at` in `s`.
pub open spec fn le_u16_run(s: Seq<u8>, at: int, n: nat) -> Seq<u16> {
    Seq::new(n, |i: int| le_u16(s, at + 2 * i))
}

/// The `n` 32-bit values encoded back to back from `at` in `s`.
pub open spec fn le_u32_run(s: Seq<u8>, at: int, n: nat) -> Seq<u32> {
    Seq::new(n, |i: int| le_u32(s, at + 4 * i))
}

/// In a run of fields of equal `width` that starts at `start`, the offset of
/// the first field that does not end at or before `len`.
pub open spec fn first_unfit(start: int, width: int, len: int) -> int {
    if len < start {
        start
    } else {
        start + width * ((len - start) / width)
    }
}

/// A read position in a borrowed buffer. The position may lie beyond the end
/// of the buffer; every read from such a position fails.
pub struct Reader<'a> {
    pub data: &'a [u8],
    pub pos: usize,
}

impl<'a> Reader<'a> {
    /// Whether `n` more bytes can be read at the current position.
    pub open spec fn fits(&self, n: int) -> bool {
        self.pos + n <= self.data@.len()
    }

    /// The error that a read of `n` bytes at the current position reports.
    pub open spec fn overrun(&self, n: usize) -> ParseError {
        ParseError::OutOfBounds { offset: self.pos, len: n }
    }

    pub fn new(data: &'a [u8], pos: usize) -> (r: Self)
        ensures
            r.data == data,
            r.pos == pos,
    {
        Reader { data, pos }
    }

    /// Checks that `n` bytes are available at the current position.
    pub fn ensure(&self, n: usize) -> (res: Result<(), ParseError>)
        ensures
            res is Ok <==> self.fits(n as int),
            res is Err ==> res == Err::<(), ParseError>(self.overrun(n)),
    {
        let len: usize = self.data.len();
        if n > len || self.pos > len - n {
            Err(ParseError::OutOfBounds { offset: self.pos, len: n })
        } else {
            Ok(())
        }
    }

    pub fn read_u32(&mut self) -> (res: Result<u32, ParseError>)
        ensures
            final(self).data == old(self).data,
            match res {
                Ok(v) => old(self).fits(4) && v == le_u32(old(self).data@, old(self).pos as int)
                    && final(self).pos == old(self).pos + 4,
                Err(e) => !old(self).fits(4) && e == old(self).overrun(4) && final(self).pos
                    == old(self).pos,
            },
    {
        self.ensure(4)?;
        let p: usize = self.pos;
        let v: u32 = (self.data[p] as u32) | (self.data[p + 1] as u32) << 8 | (self.data[p
            + 2] as u32) << 16 | (self.data[p + 3] as u32) << 24;
        self.pos = p + 4;
        Ok(v)
    }

    pub fn read_i32(&mut self) -> (res: Result<i32, ParseError>)
        ensures
            final(self).data == old(self).data,
            match res {
                Ok(v) => old(self).fits(4) && v == le_i32(old(self).data@, old(self).pos as int)
                    && final(self).pos == old(self).pos + 4,
                Err(e) => !old(self).fits(4) && e == old(self).overrun(4) && final(self).pos
                    == old(self).pos,
            },
    {
        let v: u32 = self.read_u32()?;
        Ok(v as i32)
    }

    pub fn read_u16(&mut self) -> (res: Result<u16, ParseError>)
        ensures
            final(self).data == old(self).data,
            match res {
                Ok(v) => old(self).fits(2) && v == le_u16(old(self).data@, old(self).pos as int)
                    && final(self).pos == old(self).pos + 2,
                Err(e) => !old(self).fits(2) && e == old(self).overrun(2) && final(self).pos
                    == old(self).pos,
            },
    {
        self.ensure(2)?;
        let p: usize = self.pos;
        let v: u16 = (self.data[p] as u16) | (self.data[p + 1] as u16) << 8;
        self.pos = p + 2;
        Ok(v)
    }

    /// Reads `n` 32-bit values, one bounds-checked read each. On failure the
    /// cursor stands at the first value that did not fit.
    pub fn read_u32_run(&mut self, n: usize) -> (res: Result<Vec<u32>, ParseError>)
        ensures
            final(self).data == old(self).data,
            match res {
                Ok(w) => (n == 0 || old(self).fits(4 * n)) && w@ == le_u32_run(
                    old(self).data@,
                    old(self).pos as int,
                    n as nat,
                ) && final(self).pos == old(self).pos + 4 * n,
                Err(e) => n > 0 && !old(self).fits(4 * n) && e == final(self).overrun(4) && final(self).pos
                    == first_unfit(old(self).pos as int, 4, old(self).data@.len() as int),
            },
    {
        let ghost start = self.pos as int;
        let ghost len = self.data@.len() as int;
        let mut out: Vec<u32> = Vec::new();
        let mut i: usize = 0;
        while i < n
            invariant
                self.data == old(self).data,
                len == self.data@.len(),
                start == old(self).pos,
                i <= n,
                self.pos == start + 4 * i,
                i > 0 ==> self.pos <= len,
                out@ == le_u32_run(self.data@, start, i as nat),
            decreases n - i,
        {
            let v: u32 = match self.read_u32() {
                Ok(v) => v,
                Err(e) => {
                    return Err(e);
                },
            };
            out.push(v);
            i += 1;
            assert(out@ =~= le_u32_run(self.data@, start, i as nat));
        }
        Ok(out)
    }

    /// Reads `n` 16-bit values, one bounds-checked read each. On failure the
    /// cursor stands at the first value that did not fit.
    pub fn read_u16_run(&mut self, n: usize) -> (res: Result<Vec<u16>, ParseError>)
        ensures
            final(self).data == old(self).data,
            match res {
                Ok(w) => (n == 0 || old(self).fits(2 * n)) && w@ == le_u16_run(
                    old(self).data@,
                    old(self).pos as int,
                    n as nat,
                ) && final(self).pos == old(self).pos + 2 * n,
                Err(e) => n > 0 && !old(self).fits(2 * n) && e == final(self).overrun(2) && final(self).pos
                    == first_unfit(old(self).pos as int, 2, old(self).data@.len() as int),
            },
    {
        let ghost start = self.pos as int;
        let ghost len = self.data@.len() as int;
        let mut out: Vec<u16> = Vec::new();
        let mut i: usize = 0;
        while i < n
            invariant
                self.data == old(self).data,
                len == self.data@.len(),
                start == old(self).pos,
                i <= n,
                self.pos == start + 2 * i,
                i > 0 ==> self.pos <= len,
                out@ == le_u16_run(self.data@, start, i as nat),
            decreases n - i,
        {
            let v: u16 = match self.read_u16() {
                Ok(v) => v,
                Err(e) => {
                    return Err(e);
                },
            };
            out.push(v);
            i += 1;
            assert(out@ =~= le_u16_run(self.data@, start, i as nat));
        }
        Ok(out)
    }

    pub fn read_bytes(&mut self, n: usize) -> (res: Result<&'a [u8], ParseError>)
        ensures
            final(self).data == old(self).data,
            match res {
                Ok(s) => old(self).fits(n as int) && s@ == old(self).data@.subrange(
                    old(self).pos as int,
                    old(self).pos + n,
                ) && final(self).pos == old(self).pos + n,
                Err(e) => !old(self).fits(n as int) && e == old(self).overrun(n)
                    && final(self).pos == old(self).pos,
            },
    {
        self.ensure(n)?;
        let p: usize = self.pos;
        assert(p + n <= self.data.len());
        let s = slice_subrange(self.data, p, p + n);
        self.pos = p + n;
        Ok(s)
    }
}

} // verus!
