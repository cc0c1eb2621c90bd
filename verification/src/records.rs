//! The record families of a metadata buffer: fixed-stride values, each
//! decoded from its little-endian fields in declaration order.

use crate::reader::{first_unfit, le_i32, le_u16, le_u32, ParseError, Reader};
use crate::record::Record;
use vstd::prelude::*;

verus! {

/// Bytes per string-literal descriptor.
pub const STRING_LITERAL_INFO_SIZE: usize = 8;

/// Bytes per image definition.
pub const IMAGE_DEF_SIZE: usize = 40;

/// Bytes per assembly name, as embedded in an assembly definition.
pub const ASSEMBLY_NAME_SIZE: usize = 52;

/// Bytes per assembly definition.
pub const ASSEMBLY_DEF_SIZE: usize = 68;

/// Bytes per type definition.
pub const TYPE_DEF_SIZE: usize = 100;

/// Bytes per usage list.
pub const METADATA_USAGE_LIST_SIZE: usize = 8;

/// Bytes per usage pair.
pub const METADATA_USAGE_PAIR_SIZE: usize = 8;

/// Where one string literal lies in the literal-data section: its length in
/// bytes and its offset from the start of that section.
#[derive(Debug, Clone, Copy, PartialEq, Eq)]
pub struct StringLiteralInfo {
    pub length: u32,
    pub offset: u32,
}

impl Record for StringLiteralInfo {
    open spec fn stride() -> nat {
        STRING_LITERAL_INFO_SIZE as nat
    }

    fn size() -> (n: usize) {
        STRING_LITERAL_INFO_SIZE
    }

    open spec fn decode(data: Seq<u8>, at: int) -> Self {
        StringLiteralInfo {
            length: le_u32(data, at),
            offset: le_u32(data, at + 4),
        }
    }

    open spec fn read_error(at: int, len: int) -> ParseError {
        ParseError::OutOfBounds { offset: first_unfit(at, 4, len) as usize, len: 4 }
    }

    fn read(r: &mut Reader) -> (res: Result<Self, ParseError>) {
        Ok(StringLiteralInfo { length: r.read_u32()?, offset: r.read_u32()? })
    }
}

/// One image: its name, its assembly, and the ranges of types, exported
/// types and custom attributes that it owns.
#[derive(Debug, Clone, Copy, PartialEq, Eq)]
pub struct ImageDefinition {
    pub name_index: i32,
    pub assembly_index: i32,
    pub type_start: i32,
    pub type_count: u32,
    pub exported_type_start: i32,
    pub exported_type_count: u32,
    pub entry_point_index: i32,
    pub token: u32,
    pub custom_attribute_start: i32,
    pub custom_attribute_count: u32,
}

impl Record for ImageDefinition {
    open spec fn stride() -> nat {
        IMAGE_DEF_SIZE as nat
    }

    fn size() -> (n: usize) {
        IMAGE_DEF_SIZE
    }

    open spec fn decode(data: Seq<u8>, at: int) -> Self {
        ImageDefinition {
            name_index: le_i32(data, at),
            assembly_index: le_i32(data, at + 4),
            type_start: le_i32(data, at + 8),
            type_count: le_u32(data, at + 12),
            exported_type_start: le_i32(data, at + 16),
            exported_type_count: le_u32(data, at + 20),
            entry_point_index: le_i32(data, at + 24),
            token: le_u32(data, at + 28),
            custom_attribute_start: le_i32(data, at + 32),
            custom_attribute_count: le_u32(data, at + 36),
        }
    }

    open spec fn read_error(at: int, len: int) -> ParseError {
        ParseError::OutOfBounds { offset: first_unfit(at, 4, len) as usize, len: 4 }
    }

    fn read(r: &mut Reader) -> (res: Result<Self, ParseError>) {
        Ok(
            ImageDefinition {
                name_index: r.read_i32()?,
                assembly_index: r.read_i32()?,
                type_start: r.read_i32()?,
                type_count: r.read_u32()?,
                exported_type_start: r.read_i32()?,
                exported_type_count: r.read_u32()?,
                entry_point_index: r.read_i32()?,
                token: r.read_u32()?,
                custom_attribute_start: r.read_i32()?,
                custom_attribute_count: r.read_u32()?,
            },
        )
    }
}

/// The name of an assembly: indices into the name pool, hash and version
/// numbers, and the eight bytes of its public key token.
#[derive(Debug, Clone, Copy, PartialEq, Eq)]
pub struct AssemblyNameDefinition {
    pub name_index: i32,
    pub culture_index: i32,
    pub hash_value_index: i32,
    pub public_key_index: i32,
    pub hash_alg: u32,
    pub hash_len: i32,
    pub flags: u32,
    pub major: i32,
    pub minor: i32,
    pub build: i32,
    pub revision: i32,
    pub public_key_token: [u8; 8],
}

/// The failure of a read of `words` 32-bit fields followed by one field of
/// eight bytes.
pub open spec fn words_then_token_error(at: int, len: int, words: int) -> ParseError {
    if at + 4 * words > len {
        ParseError::OutOfBounds { offset: first_unfit(at, 4, len) as usize, len: 4 }
    } else {
        ParseError::OutOfBounds { offset: (at + 4 * words) as usize, len: 8 }
    }
}

impl Record for AssemblyNameDefinition {
    open spec fn stride() -> nat {
        ASSEMBLY_NAME_SIZE as nat
    }

    fn size() -> (n: usize) {
        ASSEMBLY_NAME_SIZE
    }

    open spec fn decode(data: Seq<u8>, at: int) -> Self {
        AssemblyNameDefinition {
            name_index: le_i32(data, at),
            culture_index: le_i32(data, at + 4),
            hash_value_index: le_i32(data, at + 8),
            public_key_index: le_i32(data, at + 12),
            hash_alg: le_u32(data, at + 16),
            hash_len: le_i32(data, at + 20),
            flags: le_u32(data, at + 24),
            major: le_i32(data, at + 28),
            minor: le_i32(data, at + 32),
            build: le_i32(data, at + 36),
            revision: le_i32(data, at + 40),
            public_key_token: [
                data[at + 44],
                data[at + 45],
                data[at + 46],
                data[at + 47],
                data[at + 48],
                data[at + 49],
                data[at + 50],
                data[at + 51],
            ],
        }
    }

    open spec fn read_error(at: int, len: int) -> ParseError {
        words_then_token_error(at, len, 11)
    }

    fn read(r: &mut Reader) -> (res: Result<Self, ParseError>) {
        let name_index: i32 = r.read_i32()?;
        let culture_index: i32 = r.read_i32()?;
        let hash_value_index: i32 = r.read_i32()?;
        let public_key_index: i32 = r.read_i32()?;
        let hash_alg: u32 = r.read_u32()?;
        let hash_len: i32 = r.read_i32()?;
        let flags: u32 = r.read_u32()?;
        let major: i32 = r.read_i32()?;
        let minor: i32 = r.read_i32()?;
        let build: i32 = r.read_i32()?;
        let revision: i32 = r.read_i32()?;
        let token_bytes = r.read_bytes(8)?;
        let public_key_token: [u8; 8] = [
            token_bytes[0],
            token_bytes[1],
            token_bytes[2],
            token_bytes[3],
            token_bytes[4],
            token_bytes[5],
            token_bytes[6],
            token_bytes[7],
        ];
        Ok(
            AssemblyNameDefinition {
                name_index,
                culture_index,
                hash_value_index,
                public_key_index,
                hash_alg,
                hash_len,
                flags,
                major,
                minor,
                build,
                revision,
                public_key_token,
            },
        )
    }
}

/// One assembly: its image, its token, the range of assemblies it refers
/// to, and its name.
#[derive(Debug, Clone, Copy, PartialEq, Eq)]
pub struct AssemblyDefinition {
    pub image_index: i32,
    pub token: u32,
    pub referenced_assembly_start: i32,
    pub referenced_assembly_count: i32,
    pub aname: AssemblyNameDefinition,
}

impl Record for AssemblyDefinition {
    open spec fn stride() -> nat {
        ASSEMBLY_DEF_SIZE as nat
    }

    fn size() -> (n: usize) {
        ASSEMBLY_DEF_SIZE
    }

    open spec fn decode(data: Seq<u8>, at: int) -> Self {
        AssemblyDefinition {
            image_index: le_i32(data, at),
            token: le_u32(data, at + 4),
            referenced_assembly_start: le_i32(data, at + 8),
            referenced_assembly_count: le_i32(data, at + 12),
            aname: AssemblyNameDefinition::decode(data, at + 16),
        }
    }

    open spec fn read_error(at: int, len: int) -> ParseError {
        words_then_token_error(at, len, 15)
    }

    fn read(r: &mut Reader) -> (res: Result<Self, ParseError>) {
        Ok(
            AssemblyDefinition {
                image_index: r.read_i32()?,
                token: r.read_u32()?,
                referenced_assembly_start: r.read_i32()?,
                referenced_assembly_count: r.read_i32()?,
                aname: AssemblyNameDefinition::read(r)?,
            },
        )
    }
}

/// One type: its names, its place among the other types, where its members
/// start in the other sections, and how many of each it has.
#[derive(Debug, Clone, Copy, PartialEq, Eq)]
pub struct TypeDefinition {
    pub name_index: i32,
    pub namespace_index: i32,
    pub byval_type_index: i32,
    pub byref_type_index: i32,
    pub declaring_type_index: i32,
    pub parent_index: i32,
    pub element_type_index: i32,
    pub rgctx_start_index: i32,
    pub rgctx_count: i32,
    pub generic_container_index: i32,
    pub flags: u32,
    pub field_start: i32,
    pub method_start: i32,
    pub event_start: i32,
    pub property_start: i32,
    pub nested_types_start: i32,
    pub interfaces_start: i32,
    pub vtable_start: i32,
    pub interface_offsets_start: i32,
    pub method_count: u16,
    pub property_count: u16,
    pub field_count: u16,
    pub event_count: u16,
    pub nested_type_count: u16,
    pub vtable_count: u16,
    pub interfaces_count: u16,
    pub interface_offsets_count: u16,
    pub bitfield: u32,
    pub token: u32,
}

impl Record for TypeDefinition {
    open spec fn stride() -> nat {
        TYPE_DEF_SIZE as nat
    }

    fn size() -> (n: usize) {
        TYPE_DEF_SIZE
    }

    open spec fn decode(data: Seq<u8>, at: int) -> Self {
        TypeDefinition {
            name_index: le_i32(data, at),
            namespace_index: le_i32(data, at + 4),
            byval_type_index: le_i32(data, at + 8),
            byref_type_index: le_i32(data, at + 12),
            declaring_type_index: le_i32(data, at + 16),
            parent_index: le_i32(data, at + 20),
            element_type_index: le_i32(data, at + 24),
            rgctx_start_index: le_i32(data, at + 28),
            rgctx_count: le_i32(data, at + 32),
            generic_container_index: le_i32(data, at + 36),
            flags: le_u32(data, at + 40),
            field_start: le_i32(data, at + 44),
            method_start: le_i32(data, at + 48),
            event_start: le_i32(data, at + 52),
            property_start: le_i32(data, at + 56),
            nested_types_start: le_i32(data, at + 60),
            interfaces_start: le_i32(data, at + 64),
            vtable_start: le_i32(data, at + 68),
            interface_offsets_start: le_i32(data, at + 72),
            method_count: le_u16(data, at + 76),
            property_count: le_u16(data, at + 78),
            field_count: le_u16(data, at + 80),
            event_count: le_u16(data, at + 82),
            nested_type_count: le_u16(data, at + 84),
            vtable_count: le_u16(data, at + 86),
            interfaces_count: le_u16(data, at + 88),
            interface_offsets_count: le_u16(data, at + 90),
            bitfield: le_u32(data, at + 92),
            token: le_u32(data, at + 96),
        }
    }

    open spec fn read_error(at: int, len: int) -> ParseError {
        if at + 76 > len {
            ParseError::OutOfBounds { offset: first_unfit(at, 4, len) as usize, len: 4 }
        } else if at + 92 > len {
            ParseError::OutOfBounds { offset: first_unfit(at + 76, 2, len) as usize, len: 2 }
        } else {
            ParseError::OutOfBounds { offset: first_unfit(at + 92, 4, len) as usize, len: 4 }
        }
    }

    /// The fields come in three runs of equal width: nineteen 32-bit values,
    /// eight 16-bit counts, two 32-bit values.
    fn read(r: &mut Reader) -> (res: Result<Self, ParseError>) {
        let head: Vec<u32> = r.read_u32_run(19)?;
        let counts: Vec<u16> = r.read_u16_run(8)?;
        let tail: Vec<u32> = r.read_u32_run(2)?;
        Ok(
            TypeDefinition {
                name_index: head[0] as i32,
                namespace_index: head[1] as i32,
                byval_type_index: head[2] as i32,
                byref_type_index: head[3] as i32,
                declaring_type_index: head[4] as i32,
                parent_index: head[5] as i32,
                element_type_index: head[6] as i32,
                rgctx_start_index: head[7] as i32,
                rgctx_count: head[8] as i32,
                generic_container_index: head[9] as i32,
                flags: head[10],
                field_start: head[11] as i32,
                method_start: head[12] as i32,
                event_start: head[13] as i32,
                property_start: head[14] as i32,
                nested_types_start: head[15] as i32,
                interfaces_start: head[16] as i32,
                vtable_start: head[17] as i32,
                interface_offsets_start: head[18] as i32,
                method_count: counts[0],
                property_count: counts[1],
                field_count: counts[2],
                event_count: counts[3],
                nested_type_count: counts[4],
                vtable_count: counts[5],
                interfaces_count: counts[6],
                interface_offsets_count: counts[7],
                bitfield: tail[0],
                token: tail[1],
            },
        )
    }
}

/// A range of usage pairs: the index of the first and how many follow.
#[derive(Debug, Clone, Copy, PartialEq, Eq)]
pub struct MetadataUsageList {
    pub start: u32,
    pub count: u32,
}

impl Record for MetadataUsageList {
    open spec fn stride() -> nat {
        METADATA_USAGE_LIST_SIZE as nat
    }

    fn size() -> (n: usize) {
        METADATA_USAGE_LIST_SIZE
    }

    open spec fn decode(data: Seq<u8>, at: int) -> Self {
        MetadataUsageList {
            start: le_u32(data, at),
            count: le_u32(data, at + 4),
        }
    }

    open spec fn read_error(at: int, len: int) -> ParseError {
        ParseError::OutOfBounds { offset: first_unfit(at, 4, len) as usize, len: 4 }
    }

    fn read(r: &mut Reader) -> (res: Result<Self, ParseError>) {
        Ok(MetadataUsageList { start: r.read_u32()?, count: r.read_u32()? })
    }
}

/// One usage: the slot it fills and the encoded index of what fills it.
#[derive(Debug, Clone, Copy, PartialEq, Eq)]
pub struct MetadataUsagePair {
    pub destination_index: u32,
    pub encoded_source_index: u32,
}

impl Record for MetadataUsagePair {
    open spec fn stride() -> nat {
        METADATA_USAGE_PAIR_SIZE as nat
    }

    fn size() -> (n: usize) {
        METADATA_USAGE_PAIR_SIZE
    }

    open spec fn decode(data: Seq<u8>, at: int) -> Self {
        MetadataUsagePair {
            destination_index: le_u32(data, at),
            encoded_source_index: le_u32(data, at + 4),
        }
    }

    open spec fn read_error(at: int, len: int) -> ParseError {
        ParseError::OutOfBounds { offset: first_unfit(at, 4, len) as usize, len: 4 }
    }

    fn read(r: &mut Reader) -> (res: Result<Self, ParseError>) {
        Ok(MetadataUsagePair { destination_index: r.read_u32()?, encoded_source_index: r.read_u32()? })
    }
}

} // verus!
