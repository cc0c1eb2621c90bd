//! The decoded form of a metadata buffer, and the pass that removes the
//! obfuscation of its string literals.

use crate::header::GlobalMetadataHeader;
use crate::reader::{lemma_le_bytes_of_decoded, le_u32, u32_le_bytes, ParseError, Reader};
use crate::record::Record;
use crate::records::{
    AssemblyDefinition, ImageDefinition, MetadataUsageList, MetadataUsagePair, StringLiteralInfo,
    TypeDefinition,
};
use crate::section::{
    family, family_error, family_fits, read_family, read_section, section, section_fits, unsigned,
};
use crate::text::{lossy_text, strict_text, utf8_lossy};
use vstd::prelude::*;
use vstd::slice::{slice_subrange, slice_to_vec};
use vstd::utf8::{decode_utf8, valid_utf8};

verus! {

/// The value of the header's validity marker in a well-formed buffer.
pub const EXPECTED_MAGIC: u32 = 0xFAB11BAF;

/// The text of the literal that `info` describes in the literal-data section
/// `lit_data`: the lossy decoding of its bytes, or the empty text where the
/// described range does not lie inside the section.
pub open spec fn literal_text(lit_data: Seq<u8>, info: StringLiteralInfo) -> Seq<char> {
    if info.offset + info.length <= lit_data.len() {
        utf8_lossy(lit_data.subrange(info.offset as int, info.offset + info.length))
    } else {
        Seq::empty()
    }
}

/// Where the name that starts at `from` in `pool` ends: at the first zero
/// byte at or after `from`, or at the end of the pool where none follows.
pub open spec fn name_end(pool: Seq<u8>, from: int) -> int
    decreases pool.len() - from,
{
    if from < 0 || from >= pool.len() {
        pool.len() as int
    } else if pool[from] == 0 {
        from
    } else {
        name_end(pool, from + 1)
    }
}

/// The bytes of the name that starts at `index` in `pool`, without its
/// terminator.
pub open spec fn name_bytes(pool: Seq<u8>, index: int) -> Seq<u8> {
    pool.subrange(index, name_end(pool, index))
}

/// The byte with which the literal that `info` describes is obfuscated.
pub open spec fn literal_key(info: StringLiteralInfo) -> u8 {
    (info.length as u8) ^ 0x2E
}

/// Whether position `j` of a buffer of `len` bytes belongs to the literal
/// that `info` describes, in a literal-data section that starts at `base`.
/// A literal that does not lie inside the buffer has no positions.
pub open spec fn literal_covers(base: int, info: StringLiteralInfo, len: int, j: int) -> bool {
    base + info.offset + info.length <= len && base + info.offset <= j < base + info.offset
        + info.length
}

/// The XOR of the keys of all literals in `infos` to which position `j`
/// belongs.
pub open spec fn literal_mask(infos: Seq<StringLiteralInfo>, base: int, len: int, j: int) -> u8
    decreases infos.len(),
{
    if infos.len() == 0 {
        0
    } else {
        let rest = literal_mask(infos.drop_last(), base, len, j);
        if literal_covers(base, infos.last(), len, j) {
            rest ^ literal_key(infos.last())
        } else {
            rest
        }
    }
}

/// The buffer with every literal of `infos` XORed with its key: each byte
/// is XORed once for each literal to which it belongs.
pub open spec fn deobfuscated(data: Seq<u8>, infos: Seq<StringLiteralInfo>, base: int) -> Seq<u8> {
    Seq::new(data.len(), |j: int| data[j] ^ literal_mask(infos, base, data.len() as int, j))
}

/// Why decoding `data` fails, or `None` where it succeeds. The checks are
/// made in this order and the first failure is reported: the header, the name
/// pool, the literal descriptors, the literal data, then images, assemblies,
/// type definitions, usage lists and usage pairs.
pub open spec fn parse_failure(data: Seq<u8>) -> Option<ParseError> {
    let len = data.len() as int;
    let h = GlobalMetadataHeader::decode(data, 0);
    if len < GlobalMetadataHeader::stride() {
        Some(GlobalMetadataHeader::read_error(0, len))
    } else if !section_fits(len, h.string_offset, h.string_count) {
        Some(ParseError::SectionOutOfBounds)
    } else if !family_fits::<StringLiteralInfo>(
        len,
        h.string_literal_offset,
        h.string_literal_count,
    ) {
        Some(family_error::<StringLiteralInfo>(len, h.string_literal_offset))
    } else if !section_fits(len, h.string_literal_data_offset, h.string_literal_data_count) {
        Some(ParseError::SectionOutOfBounds)
    } else if !family_fits::<ImageDefinition>(len, h.images_offset, h.images_count) {
        Some(family_error::<ImageDefinition>(len, h.images_offset))
    } else if !family_fits::<AssemblyDefinition>(len, h.assemblies_offset, h.assemblies_count) {
        Some(family_error::<AssemblyDefinition>(len, h.assemblies_offset))
    } else if !family_fits::<TypeDefinition>(
        len,
        h.type_definitions_offset,
        h.type_definitions_count,
    ) {
        Some(family_error::<TypeDefinition>(len, h.type_definitions_offset))
    } else if !family_fits::<MetadataUsageList>(
        len,
        h.metadata_usage_lists_offset,
        h.metadata_usage_lists_count,
    ) {
        Some(family_error::<MetadataUsageList>(len, h.metadata_usage_lists_offset))
    } else if !family_fits::<MetadataUsagePair>(
        len,
        h.metadata_usage_pairs_offset,
        h.metadata_usage_pairs_count,
    ) {
        Some(family_error::<MetadataUsagePair>(len, h.metadata_usage_pairs_offset))
    } else {
        None
    }
}

/// What a metadata buffer decodes to: its header, its record families, the
/// text of its string literals, and its pool of names.
pub struct GlobalMetadata {
    pub header: GlobalMetadataHeader,
    pub string_literals: Vec<String>,
    pub images: Vec<ImageDefinition>,
    pub assemblies: Vec<AssemblyDefinition>,
    pub type_definitions: Vec<TypeDefinition>,
    pub metadata_usage_lists: Vec<MetadataUsageList>,
    pub metadata_usage_pairs: Vec<MetadataUsagePair>,
    pub string_literal_infos: Vec<StringLiteralInfo>,
    /// The pool of NUL-terminated names, as it stood in the buffer.
    pub string_data: Vec<u8>,
}

/// The text of one literal, captured from the literal-data section.
pub fn read_literal(lit_data: &[u8], info: &StringLiteralInfo) -> (s: String)
    ensures
        s@ == literal_text(lit_data@, *info),
{
    let len: usize = lit_data.len();
    let start: usize = info.offset as usize;
    match start.checked_add(info.length as usize) {
        Some(end) => {
            if end <= len {
                lossy_text(slice_subrange(lit_data, start, end))
            } else {
                String::new()
            }
        },
        None => String::new(),
    }
}

impl GlobalMetadata {
    /// Whether this value is what the buffer `data` decodes to.
    pub open spec fn decodes(&self, data: Seq<u8>) -> bool {
        let h = GlobalMetadataHeader::decode(data, 0);
        let lit_data = section(data, h.string_literal_data_offset, h.string_literal_data_count);
        &&& self.header == h
        &&& self.string_data@ == section(data, h.string_offset, h.string_count)
        &&& self.string_literal_infos@ == family::<StringLiteralInfo>(
            data,
            h.string_literal_offset,
            h.string_literal_count,
        )
        &&& self.string_literals@.len() == self.string_literal_infos@.len()
        &&& forall|i: int|
            0 <= i < self.string_literals@.len() ==> (#[trigger] self.string_literals@[i])@
                == literal_text(lit_data, self.string_literal_infos@[i])
        &&& self.images@ == family::<ImageDefinition>(data, h.images_offset, h.images_count)
        &&& self.assemblies@ == family::<AssemblyDefinition>(
            data,
            h.assemblies_offset,
            h.assemblies_count,
        )
        &&& self.type_definitions@ == family::<TypeDefinition>(
            data,
            h.type_definitions_offset,
            h.type_definitions_count,
        )
        &&& self.metadata_usage_lists@ == family::<MetadataUsageList>(
            data,
            h.metadata_usage_lists_offset,
            h.metadata_usage_lists_count,
        )
        &&& self.metadata_usage_pairs@ == family::<MetadataUsagePair>(
            data,
            h.metadata_usage_pairs_offset,
            h.metadata_usage_pairs_count,
        )
    }

    /// Decodes a buffer: the header first, then each section that the header
    /// declares, every read checked against the end of the buffer. Either
    /// everything is decoded or the first failure is returned and nothing else.
    pub fn parse(data: &[u8]) -> (res: Result<Self, ParseError>)
        ensures
            match res {
                Ok(m) => parse_failure(data@) is None && m.decodes(data@),
                Err(e) => parse_failure(data@) == Some(e),
            },
    {
        let mut r = Reader::new(data, 0);
        let header = GlobalMetadataHeader::read(&mut r)?;

        let string_data = slice_to_vec(
            read_section(data, header.string_offset, header.string_count)?,
        );

        let literal_infos: Vec<StringLiteralInfo> = read_family(
            data,
            header.string_literal_offset,
            header.string_literal_count,
        )?;

        let lit_data = read_section(
            data,
            header.string_literal_data_offset,
            header.string_literal_data_count,
        )?;
        let mut string_literals: Vec<String> = Vec::new();
        let mut i: usize = 0;
        while i < literal_infos.len()
            invariant
                i <= literal_infos@.len(),
                string_literals@.len() == i,
                forall|j: int|
                    0 <= j < i ==> (#[trigger] string_literals@[j])@ == literal_text(
                        lit_data@,
                        literal_infos@[j],
                    ),
            decreases literal_infos@.len() - i,
        {
            string_literals.push(read_literal(lit_data, &literal_infos[i]));
            i += 1;
        }

        let images: Vec<ImageDefinition> = read_family(
            data,
            header.images_offset,
            header.images_count,
        )?;
        let assemblies: Vec<AssemblyDefinition> = read_family(
            data,
            header.assemblies_offset,
            header.assemblies_count,
        )?;
        let type_definitions: Vec<TypeDefinition> = read_family(
            data,
            header.type_definitions_offset,
            header.type_definitions_count,
        )?;
        let metadata_usage_lists: Vec<MetadataUsageList> = read_family(
            data,
            header.metadata_usage_lists_offset,
            header.metadata_usage_lists_count,
        )?;
        let metadata_usage_pairs: Vec<MetadataUsagePair> = read_family(
            data,
            header.metadata_usage_pairs_offset,
            header.metadata_usage_pairs_count,
        )?;

        Ok(
            GlobalMetadata {
                header,
                string_literals,
                images,
                assemblies,
                type_definitions,
                metadata_usage_lists,
                metadata_usage_pairs,
                string_literal_infos: literal_infos,
                string_data,
            },
        )
    }

    /// Whether the header carries the expected validity marker. Nothing else
    /// of the decoded value is looked at.
    pub fn is_valid(&self) -> (b: bool)
        ensures
            b == (self.header.sanity == EXPECTED_MAGIC),
    {
        self.header.sanity == EXPECTED_MAGIC
    }

    /// The validity marker as it stood in the buffer, byte by byte.
    pub fn magic_bytes(&self) -> (bytes: [u8; 4])
        ensures
            bytes@ == u32_le_bytes(self.header.sanity),
    {
        let v: u32 = self.header.sanity;
        let bytes: [u8; 4] = [
            (v & 0xff) as u8,
            ((v >> 8) & 0xff) as u8,
            ((v >> 16) & 0xff) as u8,
            ((v >> 24) & 0xff) as u8,
        ];
        assert(bytes@ =~= u32_le_bytes(v));
        bytes
    }

    /// The name that starts at `index` in the name pool. There is none where
    /// `index` lies outside the pool, or where the bytes of the name are not
    /// valid UTF-8.
    pub fn get_string(&self, index: i32) -> (res: Option<&str>)
        ensures
            match res {
                Some(s) => 0 <= index < self.string_data@.len() && valid_utf8(
                    name_bytes(self.string_data@, index as int),
                ) && s@ == decode_utf8(name_bytes(self.string_data@, index as int)),
                None => !(0 <= index < self.string_data@.len()) || !valid_utf8(
                    name_bytes(self.string_data@, index as int),
                ),
            },
    {
        let len: usize = self.string_data.len();
        if index < 0 || index as usize >= len {
            return None;
        }
        let start: usize = index as usize;
        let mut end: usize = start;
        while end < len && self.string_data[end] != 0
            invariant
                start <= end <= len,
                len == self.string_data@.len(),
                name_end(self.string_data@, start as int) == name_end(
                    self.string_data@,
                    end as int,
                ),
            decreases len - end,
        {
            end += 1;
        }
        strict_text(slice_subrange(self.string_data.as_slice(), start, end))
    }
}

/// XORing twice with the same byte changes nothing, in whatever order the
/// XORs are grouped.
proof fn lemma_xor_u8(x: u8, m: u8, k: u8)
    ensures
        (x ^ m) ^ k == x ^ (m ^ k),
        (x ^ m) ^ m == x,
        x ^ 0 == x,
{
    assert((x ^ m) ^ k == x ^ (m ^ k)) by (bit_vector);
    assert((x ^ m) ^ m == x) by (bit_vector);
    assert(x ^ 0 == x) by (bit_vector);
}

/// Removes the obfuscation of the string literals in `data`, in place: for
/// each literal descriptor of `metadata`, the bytes of its range in the
/// literal-data section are XORed with the key derived from its length. A
/// descriptor whose range does not lie inside `data` is passed over. The
/// texts in `metadata.string_literals` are not touched.
pub fn decrypt_string_literals(metadata: &GlobalMetadata, data: &mut [u8]) -> (res: Result<
    (),
    String,
>)
    ensures
        res is Ok,
        final(data)@ == deobfuscated(
            old(data)@,
            metadata.string_literal_infos@,
            unsigned(metadata.header.string_literal_data_offset),
        ),
{
    let len: usize = data.len();
    let lit_data_start: usize = #[verifier::truncate] (metadata.header.string_literal_data_offset
        as usize);
    let ghost base = lit_data_start as int;
    let ghost infos = metadata.string_literal_infos@;
    let ghost original = data@;
    let n: usize = metadata.string_literal_infos.len();
    let mut i: usize = 0;
    proof {
        assert forall|j: int| 0 <= j < len implies data@[j] == original[j] ^ literal_mask(
            infos.take(0),
            base,
            len as int,
            j,
        ) by {
            lemma_xor_u8(original[j], 0, 0);
        }
    }
    while i < n
        invariant
            i <= n,
            n == infos.len(),
            infos == metadata.string_literal_infos@,
            base == lit_data_start,
            data@.len() == len,
            original.len() == len,
            forall|j: int|
                0 <= j < len ==> data@[j] == original[j] ^ literal_mask(
                    infos.take(i as int),
                    base,
                    len as int,
                    j,
                ),
        decreases n - i,
    {
        let info = &metadata.string_literal_infos[i];
        let xor_key: u8 = #[verifier::truncate] (info.length as u8) ^ 0x2E;
        let ghost done = infos.take(i as int);
        let ghost next = infos.take(i + 1);
        let mut end: usize = 0;
        let mut j: usize = 0;
        if let Some(start) = lit_data_start.checked_add(info.offset as usize) {
            if let Some(stop) = start.checked_add(info.length as usize) {
                if stop <= len {
                    j = start;
                    end = stop;
                }
            }
        }
        let ghost first = j as int;
        proof {
            assert(next.drop_last() =~= done);
            assert(next.last() == *info);
            assert forall|t: int| 0 <= t < len implies literal_mask(next, base, len as int, t)
                == (if first <= t < end {
                literal_mask(done, base, len as int, t) ^ xor_key
            } else {
                literal_mask(done, base, len as int, t)
            }) by {
                assert(literal_covers(base, *info, len as int, t) <==> first <= t < end);
            }
        }
        while j < end
            invariant
                first <= j <= end <= len,
                data@.len() == len,
                original.len() == len,
                forall|t: int|
                    0 <= t < len ==> literal_mask(next, base, len as int, t) == (if first <= t
                        < end {
                        literal_mask(done, base, len as int, t) ^ xor_key
                    } else {
                        literal_mask(done, base, len as int, t)
                    }),
                forall|t: int|
                    0 <= t < len ==> data@[t] == original[t] ^ (if first <= t < j {
                        literal_mask(next, base, len as int, t)
                    } else {
                        literal_mask(done, base, len as int, t)
                    }),
            decreases end - j,
        {
            proof {
                lemma_xor_u8(
                    original[j as int],
                    literal_mask(done, base, len as int, j as int),
                    xor_key,
                );
            }
            data[j] = data[j] ^ xor_key;
            j += 1;
        }
        i += 1;
    }
    proof {
        assert(infos.take(n as int) =~= infos);
        assert(data@ =~= deobfuscated(original, infos, base));
    }
    Ok(())
}

/// The pass is its own inverse: applied twice with the same descriptors to
/// a buffer, it gives the buffer back.
pub proof fn lemma_deobfuscation_is_involutive(
    data: Seq<u8>,
    infos: Seq<StringLiteralInfo>,
    base: int,
)
    ensures
        deobfuscated(deobfuscated(data, infos, base), infos, base) == data,
{
    let once = deobfuscated(data, infos, base);
    let twice = deobfuscated(once, infos, base);
    assert forall|j: int| 0 <= j < data.len() implies twice[j] == data[j] by {
        lemma_xor_u8(data[j], literal_mask(infos, base, data.len() as int, j), 0);
    }
    assert(twice =~= data);
}

/// The validity marker does not decide whether a buffer decodes: two
/// buffers of one length that agree on every byte after the marker both
/// decode, or fail alike.
pub proof fn lemma_marker_does_not_gate_decoding(a: Seq<u8>, b: Seq<u8>)
    requires
        a.len() == b.len(),
        forall|i: int| 4 <= i < a.len() ==> a[i] == b[i],
    ensures
        parse_failure(a) == parse_failure(b),
{
}

/// What `is_valid` reports of a decoded buffer is whether the buffer starts
/// with the little-endian encoding of the expected marker.
pub proof fn lemma_validity_is_the_marker(m: GlobalMetadata, data: Seq<u8>)
    requires
        m.decodes(data),
    ensures
        m.header.sanity == EXPECTED_MAGIC <==> le_u32(data, 0) == EXPECTED_MAGIC,
{
}

/// The marker bytes of a decoded buffer are the first four bytes of the
/// buffer.
pub proof fn lemma_magic_bytes_are_the_first_four(m: GlobalMetadata, data: Seq<u8>)
    requires
        m.decodes(data),
        data.len() >= 4,
    ensures
        u32_le_bytes(m.header.sanity) == data.subrange(0, 4),
{
    lemma_le_bytes_of_decoded(data, 0);
}

/// A buffer does not decode when one of the sections that the decoder reads
/// does not lie inside it. For a record family, only the whole records count.
/// Where both byte sections fit, the failure is an overrun of the cursor.
pub proof fn lemma_section_beyond_buffer_fails(data: Seq<u8>)
    requires
        data.len() >= GlobalMetadataHeader::stride(),
        ({
            let len = data.len() as int;
            let h = GlobalMetadataHeader::decode(data, 0);
            ||| !section_fits(len, h.string_offset, h.string_count)
            ||| !section_fits(len, h.string_literal_data_offset, h.string_literal_data_count)
            ||| !family_fits::<StringLiteralInfo>(
                len,
                h.string_literal_offset,
                h.string_literal_count,
            )
            ||| !family_fits::<ImageDefinition>(len, h.images_offset, h.images_count)
            ||| !family_fits::<AssemblyDefinition>(len, h.assemblies_offset, h.assemblies_count)
            ||| !family_fits::<TypeDefinition>(
                len,
                h.type_definitions_offset,
                h.type_definitions_count,
            )
            ||| !family_fits::<MetadataUsageList>(
                len,
                h.metadata_usage_lists_offset,
                h.metadata_usage_lists_count,
            )
            ||| !family_fits::<MetadataUsagePair>(
                len,
                h.metadata_usage_pairs_offset,
                h.metadata_usage_pairs_count,
            )
        }),
    ensures
        parse_failure(data) is Some,
        ({
            let len = data.len() as int;
            let h = GlobalMetadataHeader::decode(data, 0);
            section_fits(len, h.string_offset, h.string_count) && section_fits(
                len,
                h.string_literal_data_offset,
                h.string_literal_data_count,
            ) ==> parse_failure(data)->Some_0 is OutOfBounds
        }),
{
}

/// A buffer that is too short for the header does not decode, and the
/// failure is the overrun of the first header field that does not fit.
pub proof fn lemma_short_buffer_fails(data: Seq<u8>)
    requires
        data.len() < GlobalMetadataHeader::stride(),
    ensures
        parse_failure(data) == Some(
            ParseError::OutOfBounds { offset: (4 * (data.len() / 4)) as usize, len: 4 },
        ),
{
}

} // verus!
