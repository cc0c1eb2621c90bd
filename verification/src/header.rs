//! The fixed-layout header at the start of a metadata buffer.

use crate::reader::{first_unfit, le_i32, le_u32, ParseError, Reader};
use crate::record::Record;
use vstd::prelude::*;

verus! {

/// Bytes that the encoded header occupies.
pub const HEADER_SIZE: usize = 272;

/// 32-bit fields in the header.
pub const HEADER_FIELDS: usize = 68;

/// The header of a metadata buffer: the validity marker, the format version,
/// and for each section its absolute byte offset and its size in bytes.
#[derive(Debug, Clone, Copy, PartialEq, Eq)]
pub struct GlobalMetadataHeader {
    pub sanity: u32,
    pub version: i32,
    pub string_literal_offset: i32,
    pub string_literal_count: i32,
    pub string_literal_data_offset: i32,
    pub string_literal_data_count: i32,
    pub string_offset: i32,
    pub string_count: i32,
    pub events_offset: i32,
    pub events_count: i32,
    pub properties_offset: i32,
    pub properties_count: i32,
    pub methods_offset: i32,
    pub methods_count: i32,
    pub parameter_default_values_offset: i32,
    pub parameter_default_values_count: i32,
    pub field_default_values_offset: i32,
    pub field_default_values_count: i32,
    pub field_and_parameter_default_value_data_offset: i32,
    pub field_and_parameter_default_value_data_count: i32,
    pub field_marshaled_sizes_offset: i32,
    pub field_marshaled_sizes_count: i32,
    pub parameters_offset: i32,
    pub parameters_count: i32,
    pub fields_offset: i32,
    pub fields_count: i32,
    pub generic_parameters_offset: i32,
    pub generic_parameters_count: i32,
    pub generic_parameter_constraints_offset: i32,
    pub generic_parameter_constraints_count: i32,
    pub generic_containers_offset: i32,
    pub generic_containers_count: i32,
    pub nested_types_offset: i32,
    pub nested_types_count: i32,
    pub interfaces_offset: i32,
    pub interfaces_count: i32,
    pub vtable_methods_offset: i32,
    pub vtable_methods_count: i32,
    pub interface_offsets_offset: i32,
    pub interface_offsets_count: i32,
    pub type_definitions_offset: i32,
    pub type_definitions_count: i32,
    pub rgctx_entries_offset: i32,
    pub rgctx_entries_count: i32,
    pub images_offset: i32,
    pub images_count: i32,
    pub assemblies_offset: i32,
    pub assemblies_count: i32,
    pub metadata_usage_lists_offset: i32,
    pub metadata_usage_lists_count: i32,
    pub metadata_usage_pairs_offset: i32,
    pub metadata_usage_pairs_count: i32,
    pub field_refs_offset: i32,
    pub field_refs_count: i32,
    pub referenced_assemblies_offset: i32,
    pub referenced_assemblies_count: i32,
    pub attributes_info_offset: i32,
    pub attributes_info_count: i32,
    pub attribute_types_offset: i32,
    pub attribute_types_count: i32,
    pub unresolved_virtual_call_parameter_types_offset: i32,
    pub unresolved_virtual_call_parameter_types_count: i32,
    pub unresolved_virtual_call_parameter_ranges_offset: i32,
    pub unresolved_virtual_call_parameter_ranges_count: i32,
    pub windows_runtime_type_names_offset: i32,
    pub windows_runtime_type_names_size: i32,
    pub exported_type_definitions_offset: i32,
    pub exported_type_definitions_count: i32,
}

impl Record for GlobalMetadataHeader {
    open spec fn stride() -> nat {
        HEADER_SIZE as nat
    }

    fn size() -> (n: usize) {
        HEADER_SIZE
    }

    open spec fn decode(data: Seq<u8>, at: int) -> Self {
        GlobalMetadataHeader {
            sanity: le_u32(data, at),
            version: le_i32(data, at + 4),
            string_literal_offset: le_i32(data, at + 8),
            string_literal_count: le_i32(data, at + 12),
            string_literal_data_offset: le_i32(data, at + 16),
            string_literal_data_count: le_i32(data, at + 20),
            string_offset: le_i32(data, at + 24),
            string_count: le_i32(data, at + 28),
            events_offset: le_i32(data, at + 32),
            events_count: le_i32(data, at + 36),
            properties_offset: le_i32(data, at + 40),
            properties_count: le_i32(data, at + 44),
            methods_offset: le_i32(data, at + 48),
            methods_count: le_i32(data, at + 52),
            parameter_default_values_offset: le_i32(data, at + 56),
            parameter_default_values_count: le_i32(data, at + 60),
            field_default_values_offset: le_i32(data, at + 64),
            field_default_values_count: le_i32(data, at + 68),
            field_and_parameter_default_value_data_offset: le_i32(data, at + 72),
            field_and_parameter_default_value_data_count: le_i32(data, at + 76),
            field_marshaled_sizes_offset: le_i32(data, at + 80),
            field_marshaled_sizes_count: le_i32(data, at + 84),
            parameters_offset: le_i32(data, at + 88),
            parameters_count: le_i32(data, at + 92),
            fields_offset: le_i32(data, at + 96),
            fields_count: le_i32(data, at + 100),
            generic_parameters_offset: le_i32(data, at + 104),
            generic_parameters_count: le_i32(data, at + 108),
            generic_parameter_constraints_offset: le_i32(data, at + 112),
            generic_parameter_constraints_count: le_i32(data, at + 116),
            generic_containers_offset: le_i32(data, at + 120),
            generic_containers_count: le_i32(data, at + 124),
            nested_types_offset: le_i32(data, at + 128),
            nested_types_count: le_i32(data, at + 132),
            interfaces_offset: le_i32(data, at + 136),
            interfaces_count: le_i32(data, at + 140),
            vtable_methods_offset: le_i32(data, at + 144),
            vtable_methods_count: le_i32(data, at + 148),
            interface_offsets_offset: le_i32(data, at + 152),
            interface_offsets_count: le_i32(data, at + 156),
            type_definitions_offset: le_i32(data, at + 160),
            type_definitions_count: le_i32(data, at + 164),
            rgctx_entries_offset: le_i32(data, at + 168),
            rgctx_entries_count: le_i32(data, at + 172),
            images_offset: le_i32(data, at + 176),
            images_count: le_i32(data, at + 180),
            assemblies_offset: le_i32(data, at + 184),
            assemblies_count: le_i32(data, at + 188),
            metadata_usage_lists_offset: le_i32(data, at + 192),
            metadata_usage_lists_count: le_i32(data, at + 196),
            metadata_usage_pairs_offset: le_i32(data, at + 200),
            metadata_usage_pairs_count: le_i32(data, at + 204),
            field_refs_offset: le_i32(data, at + 208),
            field_refs_count: le_i32(data, at + 212),
            referenced_assemblies_offset: le_i32(data, at + 216),
            referenced_assemblies_count: le_i32(data, at + 220),
            attributes_info_offset: le_i32(data, at + 224),
            attributes_info_count: le_i32(data, at + 228),
            attribute_types_offset: le_i32(data, at + 232),
            attribute_types_count: le_i32(data, at + 236),
            unresolved_virtual_call_parameter_types_offset: le_i32(data, at + 240),
            unresolved_virtual_call_parameter_types_count: le_i32(data, at + 244),
            unresolved_virtual_call_parameter_ranges_offset: le_i32(data, at + 248),
            unresolved_virtual_call_parameter_ranges_count: le_i32(data, at + 252),
            windows_runtime_type_names_offset: le_i32(data, at + 256),
            windows_runtime_type_names_size: le_i32(data, at + 260),
            exported_type_definitions_offset: le_i32(data, at + 264),
            exported_type_definitions_count: le_i32(data, at + 268),
        }
    }

    open spec fn read_error(at: int, len: int) -> ParseError {
        ParseError::OutOfBounds { offset: first_unfit(at, 4, len) as usize, len: 4 }
    }

    /// Every field is 32 bits wide, so the header is read as one run of
    /// values and the fields are named afterwards, in the order of the layout.
    fn read(r: &mut Reader) -> (res: Result<Self, ParseError>) {
        let w: Vec<u32> = r.read_u32_run(HEADER_FIELDS)?;
        Ok(
            GlobalMetadataHeader {
                sanity: w[0],
                version: w[1] as i32,
                string_literal_offset: w[2] as i32,
                string_literal_count: w[3] as i32,
                string_literal_data_offset: w[4] as i32,
                string_literal_data_count: w[5] as i32,
                string_offset: w[6] as i32,
                string_count: w[7] as i32,
                events_offset: w[8] as i32,
                events_count: w[9] as i32,
                properties_offset: w[10] as i32,
                properties_count: w[11] as i32,
                methods_offset: w[12] as i32,
                methods_count: w[13] as i32,
                parameter_default_values_offset: w[14] as i32,
                parameter_default_values_count: w[15] as i32,
                field_default_values_offset: w[16] as i32,
                field_default_values_count: w[17] as i32,
                field_and_parameter_default_value_data_offset: w[18] as i32,
                field_and_parameter_default_value_data_count: w[19] as i32,
                field_marshaled_sizes_offset: w[20] as i32,
                field_marshaled_sizes_count: w[21] as i32,
                parameters_offset: w[22] as i32,
                parameters_count: w[23] as i32,
                fields_offset: w[24] as i32,
                fields_count: w[25] as i32,
                generic_parameters_offset: w[26] as i32,
                generic_parameters_count: w[27] as i32,
                generic_parameter_constraints_offset: w[28] as i32,
                generic_parameter_constraints_count: w[29] as i32,
                generic_containers_offset: w[30] as i32,
                generic_containers_count: w[31] as i32,
                nested_types_offset: w[32] as i32,
                nested_types_count: w[33] as i32,
                interfaces_offset: w[34] as i32,
                interfaces_count: w[35] as i32,
                vtable_methods_offset: w[36] as i32,
                vtable_methods_count: w[37] as i32,
                interface_offsets_offset: w[38] as i32,
                interface_offsets_count: w[39] as i32,
                type_definitions_offset: w[40] as i32,
                type_definitions_count: w[41] as i32,
                rgctx_entries_offset: w[42] as i32,
                rgctx_entries_count: w[43] as i32,
                images_offset: w[44] as i32,
                images_count: w[45] as i32,
                assemblies_offset: w[46] as i32,
                assemblies_count: w[47] as i32,
                metadata_usage_lists_offset: w[48] as i32,
                metadata_usage_lists_count: w[49] as i32,
                metadata_usage_pairs_offset: w[50] as i32,
                metadata_usage_pairs_count: w[51] as i32,
                field_refs_offset: w[52] as i32,
                field_refs_count: w[53] as i32,
                referenced_assemblies_offset: w[54] as i32,
                referenced_assemblies_count: w[55] as i32,
                attributes_info_offset: w[56] as i32,
                attributes_info_count: w[57] as i32,
                attribute_types_offset: w[58] as i32,
                attribute_types_count: w[59] as i32,
                unresolved_virtual_call_parameter_types_offset: w[60] as i32,
                unresolved_virtual_call_parameter_types_count: w[61] as i32,
                unresolved_virtual_call_parameter_ranges_offset: w[62] as i32,
                unresolved_virtual_call_parameter_ranges_count: w[63] as i32,
                windows_runtime_type_names_offset: w[64] as i32,
                windows_runtime_type_names_size: w[65] as i32,
                exported_type_definitions_offset: w[66] as i32,
                exported_type_definitions_count: w[67] as i32,
            },
        )
    }
}

} // verus!
