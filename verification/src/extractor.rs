//! Finding the encrypted blob in its host binary: it lies between a fixed
//! head marker and the first run of four zero bytes after that marker.

use vstd::prelude::*;
use vstd::slice::{slice_subrange, slice_to_vec};

verus! {

/// Why no blob was extracted.
#[derive(Debug, Clone, Copy, PartialEq, Eq, Structural)]
pub enum ExtractionError {
    /// The head marker occurs nowhere in the binary.
    HeadNotFound,
    /// No run of four zero bytes follows the head marker.
    TailNotFound,
}

/// The marker that precedes the blob.
pub const HEAD_PATTERN: [u8; 10] = [0x43, 0x00, 0x46, 0x00, 0x47, 0x00, 0x00, 0x00, 0x00, 0x00];

/// The marker that follows the blob.
pub const TAIL_PATTERN: [u8; 4] = [0x00, 0x00, 0x00, 0x00];

/// The head marker as a sequence of bytes.
pub open spec fn head() -> Seq<u8> {
    seq![0x43u8, 0x00u8, 0x46u8, 0x00u8, 0x47u8, 0x00u8, 0x00u8, 0x00u8, 0x00u8, 0x00u8]
}

/// The tail marker as a sequence of bytes.
pub open spec fn tail() -> Seq<u8> {
    seq![0x00u8, 0x00u8, 0x00u8, 0x00u8]
}

/// Whether `pattern` occurs in `data` at position `at`.
pub open spec fn occurs_at(data: Seq<u8>, pattern: Seq<u8>, at: int) -> bool {
    0 <= at && at + pattern.len() <= data.len() && data.subrange(at, at + pattern.len())
        == pattern
}

/// Whether `at` is the leftmost position at or after `from` where `pattern`
/// occurs in `data`.
pub open spec fn first_occurrence(data: Seq<u8>, pattern: Seq<u8>, from: int, at: int) -> bool {
    from <= at && occurs_at(data, pattern, at) && forall|i: int|
        from <= i < at ==> !occurs_at(data, pattern, i)
}

/// Whether `pattern` occurs nowhere in `data` at or after `from`.
pub open spec fn absent(data: Seq<u8>, pattern: Seq<u8>, from: int) -> bool {
    forall|i: int| from <= i ==> !occurs_at(data, pattern, i)
}

/// Whether `blob` is what lies in `data` between the leftmost head marker
/// and the leftmost tail marker that starts after it.
pub open spec fn is_extracted(data: Seq<u8>, blob: Seq<u8>) -> bool {
    exists|h: int, t: int|
        first_occurrence(data, head(), 0, h) && #[trigger] first_occurrence(
            data,
            tail(),
            h + head().len(),
            t,
        ) && blob == data.subrange(h + head().len(), t)
}

/// Whether `data` holds a head marker after whose leftmost occurrence no
/// tail marker starts.
pub open spec fn lacks_tail(data: Seq<u8>) -> bool {
    exists|h: int| #[trigger]
        first_occurrence(data, head(), 0, h) && absent(data, tail(), h + head().len())
}

/// The leftmost position at or after `from` where `pattern` occurs in
/// `data`, found by comparing at each position in turn.
pub fn find_pattern(data: &[u8], pattern: &[u8], from: usize) -> (res: Option<usize>)
    requires
        pattern@.len() > 0,
    ensures
        match res {
            Some(at) => first_occurrence(data@, pattern@, from as int, at as int),
            None => absent(data@, pattern@, from as int),
        },
{
    let n: usize = data.len();
    let m: usize = pattern.len();
    if m > n || from > n - m {
        return None;
    }
    let last: usize = n - m;
    let mut at: usize = from;
    while at <= last
        invariant
            from <= at <= last + 1,
            last == n - m,
            n == data@.len(),
            m == pattern@.len(),
            m > 0,
            forall|i: int| from <= i < at ==> !occurs_at(data@, pattern@, i),
        decreases last + 1 - at,
    {
        let mut j: usize = 0;
        while j < m && data[at + j] == pattern[j]
            invariant
                j <= m,
                at + m <= n,
                n == data@.len(),
                m == pattern@.len(),
                forall|t: int| 0 <= t < j ==> data@[at + t] == pattern@[t],
            decreases m - j,
        {
            j += 1;
        }
        if j == m {
            assert(data@.subrange(at as int, at + m) =~= pattern@);
            return Some(at);
        }
        assert(!occurs_at(data@, pattern@, at as int)) by {
            if occurs_at(data@, pattern@, at as int) {
                assert(data@.subrange(at as int, at + m)[j as int] == pattern@[j as int]);
            }
        }
        at += 1;
    }
    None
}

/// Extracts an encrypted blob from the bytes of a host binary.
pub struct Extractor<'a> {
    pub dll_data: &'a [u8],
    pub valid_data: Vec<u8>,
}

impl<'a> Extractor<'a> {
    /// An extractor over the bytes of a binary, with nothing extracted yet.
    pub fn new(dll_data: &'a [u8]) -> (extractor: Self)
        ensures
            extractor.dll_data == dll_data,
            extractor.valid_data@ == Seq::<u8>::empty(),
    {
        Extractor { dll_data, valid_data: Vec::new() }
    }

    /// Looks for the blob and keeps a copy of it.
    pub fn process(&mut self) -> (res: Result<(), ExtractionError>)
        ensures
            final(self).dll_data == old(self).dll_data,
            match res {
                Ok(()) => is_extracted(old(self).dll_data@, final(self).valid_data@),
                Err(ExtractionError::HeadNotFound) => absent(old(self).dll_data@, head(), 0)
                    && final(self).valid_data == old(self).valid_data,
                Err(ExtractionError::TailNotFound) => lacks_tail(old(self).dll_data@)
                    && final(self).valid_data == old(self).valid_data,
            },
    {
        self.extract_data_pattern()
    }

    /// The blob that the last successful `process` found; empty before.
    pub fn get_valid_data(&self) -> (data: &[u8])
        ensures
            data@ == self.valid_data@,
    {
        self.valid_data.as_slice()
    }

    /// Finds the leftmost head marker, then the leftmost tail marker that
    /// starts after it, and copies what lies between them.
    pub fn extract_data_pattern(&mut self) -> (res: Result<(), ExtractionError>)
        ensures
            final(self).dll_data == old(self).dll_data,
            match res {
                Ok(()) => is_extracted(old(self).dll_data@, final(self).valid_data@),
                Err(ExtractionError::HeadNotFound) => absent(old(self).dll_data@, head(), 0)
                    && final(self).valid_data == old(self).valid_data,
                Err(ExtractionError::TailNotFound) => lacks_tail(old(self).dll_data@)
                    && final(self).valid_data == old(self).valid_data,
            },
    {
        let head_pattern: [u8; 10] = HEAD_PATTERN;
        let tail_pattern: [u8; 4] = TAIL_PATTERN;
        assert(head_pattern@ =~= head());
        assert(tail_pattern@ =~= tail());

        let head_pos: usize = match find_pattern(self.dll_data, head_pattern.as_slice(), 0) {
            Some(pos) => pos,
            None => {
                return Err(ExtractionError::HeadNotFound);
            },
        };

        assert(head_pos + head().len() <= self.dll_data.len());
        let start_pos: usize = head_pos + head_pattern.len();

        let tail_pos: usize = match find_pattern(
            self.dll_data,
            tail_pattern.as_slice(),
            start_pos,
        ) {
            Some(pos) => pos,
            None => {
                return Err(ExtractionError::TailNotFound);
            },
        };

        self.valid_data = slice_to_vec(slice_subrange(self.dll_data, start_pos, tail_pos));
        Ok(())
    }
}

/// At most one blob is extracted from a binary.
pub proof fn lemma_extraction_is_unique(data: Seq<u8>, blob1: Seq<u8>, blob2: Seq<u8>)
    requires
        is_extracted(data, blob1),
        is_extracted(data, blob2),
    ensures
        blob1 == blob2,
{
    let (h1, t1) = choose|h: int, t: int|
        first_occurrence(data, head(), 0, h) && #[trigger] first_occurrence(
            data,
            tail(),
            h + head().len(),
            t,
        ) && blob1 == data.subrange(h + head().len(), t);
    let (h2, t2) = choose|h: int, t: int|
        first_occurrence(data, head(), 0, h) && #[trigger] first_occurrence(
            data,
            tail(),
            h + head().len(),
            t,
        ) && blob2 == data.subrange(h + head().len(), t);
    assert(h1 == h2);
    assert(t1 == t2);
}

/// The three outcomes of an extraction exclude each other: a binary from
/// which a blob is extracted holds the head marker and a tail marker after
/// it, and a binary that lacks the tail marker holds the head marker.
pub proof fn lemma_outcomes_are_exclusive(data: Seq<u8>, blob: Seq<u8>)
    ensures
        !(is_extracted(data, blob) && absent(data, head(), 0)),
        !(is_extracted(data, blob) && lacks_tail(data)),
        !(lacks_tail(data) && absent(data, head(), 0)),
{
    if is_extracted(data, blob) {
        let (h1, t1) = choose|h: int, t: int|
            first_occurrence(data, head(), 0, h) && #[trigger] first_occurrence(
                data,
                tail(),
                h + head().len(),
                t,
            ) && blob == data.subrange(h + head().len(), t);
        if lacks_tail(data) {
            let h2 = choose|h: int| #[trigger]
                first_occurrence(data, head(), 0, h) && absent(data, tail(), h + head().len());
            assert(h1 == h2);
        }
    }
}

/// The head marker does not overlap itself: an occurrence that starts
/// before another one ends before it.
proof fn lemma_head_is_leftmost(data: Seq<u8>, h: int)
    requires
        occurs_at(data, head(), h),
        forall|i: int| 0 <= i && i + head().len() <= h ==> !occurs_at(data, head(), i),
    ensures
        first_occurrence(data, head(), 0, h),
{
    assert(data.subrange(h, h + head().len())[0] == head()[0]);
    assert forall|i: int| 0 <= i < h implies !occurs_at(data, head(), i) by {
        if occurs_at(data, head(), i) && i + head().len() > h {
            assert(data.subrange(i, i + head().len())[h - i] == head()[h - i]);
        }
    }
}

/// A tail marker is the leftmost from `start` on where none lies wholly
/// before it and the byte before it is not zero.
proof fn lemma_tail_is_leftmost(data: Seq<u8>, start: int, t: int)
    requires
        0 <= start <= t,
        occurs_at(data, tail(), t),
        forall|i: int| start <= i && i + tail().len() <= t ==> !occurs_at(data, tail(), i),
        t == start || data[t - 1] != 0,
    ensures
        first_occurrence(data, tail(), start, t),
{
    assert forall|i: int| start <= i < t implies !occurs_at(data, tail(), i) by {
        if occurs_at(data, tail(), i) && i + tail().len() > t {
            assert(data.subrange(i, i + tail().len())[t - 1 - i] == tail()[t - 1 - i]);
        }
    }
}

/// A blob that is embedded between a head marker and a tail marker is
/// extracted as it stands, whatever surrounds the markers, provided that the
/// head marker does not occur before the one that is meant, that the blob
/// holds no run of four zero bytes, and that the blob does not end in a zero
/// byte. (A last zero byte would form, with the first three of the tail
/// marker, a run of four that starts inside the blob.)
pub proof fn lemma_extracts_embedded_blob(before: Seq<u8>, blob: Seq<u8>, after: Seq<u8>)
    requires
        absent(before, head(), 0),
        absent(blob, tail(), 0),
        blob.len() == 0 || blob.last() != 0,
    ensures
        is_extracted(before + head() + blob + tail() + after, blob),
{
    let data = before + head() + blob + tail() + after;
    let m = head().len() as int;
    let k = tail().len() as int;
    let h = before.len() as int;
    let start = h + m;
    let t = start + blob.len();
    assert(data.subrange(h, h + m) =~= head());
    assert(data.subrange(t, t + k) =~= tail());
    assert(data.subrange(start, t) =~= blob);
    assert forall|i: int| 0 <= i && i + m <= h implies !occurs_at(data, head(), i) by {
        assert(before.subrange(i, i + m) =~= data.subrange(i, i + m));
        assert(!occurs_at(before, head(), i));
    }
    assert forall|i: int| start <= i && i + k <= t implies !occurs_at(data, tail(), i) by {
        assert(blob.subrange(i - start, i - start + k) =~= data.subrange(i, i + k));
        assert(!occurs_at(blob, tail(), i - start));
    }
    if blob.len() > 0 {
        assert(data[t - 1] == blob.last());
    }
    lemma_head_is_leftmost(data, h);
    lemma_tail_is_leftmost(data, start, t);
}

} // verus!
