use metadata_unpacker::metadata::{
    decrypt_string_literals, read_literal, GlobalMetadata, EXPECTED_MAGIC,
};
use metadata_unpacker::reader::ParseError;
use metadata_unpacker::records::{
    MetadataUsageList, MetadataUsagePair, StringLiteralInfo,
};

const SANITY: usize = 0;
const VERSION: usize = 1;
const STRING_LITERAL: usize = 2;
const STRING_LITERAL_DATA: usize = 4;
const STRING: usize = 6;
const EVENTS: usize = 8;
const TYPE_DEFINITIONS: usize = 40;
const IMAGES: usize = 44;
const ASSEMBLIES: usize = 46;
const USAGE_LISTS: usize = 48;
const USAGE_PAIRS: usize = 50;

const NAMES_AT: usize = 272;
const NAMES: &[u8] = b"mscorlib\0System\0\xC3\xA9t\xC3\xA9\0\xFFbad\0last";
const INFOS_AT: usize = 304;
const LITERALS_AT: usize = 336;
const LITERALS_LEN: usize = 16;
const IMAGES_AT: usize = 352;
const ASSEMBLIES_AT: usize = 432;
const TYPES_AT: usize = 500;
const LISTS_AT: usize = 600;
const PAIRS_AT: usize = 616;
const TOTAL: usize = 624;

fn overrun(offset: usize, len: usize) -> ParseError {
    ParseError::OutOfBounds { offset, len }
}

fn set_field(buf: &mut [u8], index: usize, value: i32) {
    buf[4 * index..4 * index + 4].copy_from_slice(&value.to_le_bytes());
}

fn set_section(buf: &mut [u8], index: usize, offset: i32, size: i32) {
    set_field(buf, index, offset);
    set_field(buf, index + 1, size);
}

fn put_words(buf: &mut [u8], at: usize, first: u32, count: usize) {
    for i in 0..count {
        buf[at + 4 * i..at + 4 * i + 4].copy_from_slice(&(first + i as u32).to_le_bytes());
    }
}

fn obfuscate(text: &[u8]) -> Vec<u8> {
    let key = (text.len() as u8) ^ 0x2E;
    text.iter().map(|b| b ^ key).collect()
}

/// A well-formed buffer with a few records in every family.
fn sample() -> Vec<u8> {
    let mut buf = vec![0u8; TOTAL];
    buf[0..4].copy_from_slice(&[0xAF, 0x1B, 0xB1, 0xFA]);
    set_field(&mut buf, VERSION, 24);
    set_section(&mut buf, STRING, NAMES_AT as i32, NAMES.len() as i32);
    set_section(&mut buf, STRING_LITERAL, INFOS_AT as i32, 32);
    set_section(&mut buf, STRING_LITERAL_DATA, LITERALS_AT as i32, LITERALS_LEN as i32);
    set_section(&mut buf, IMAGES, IMAGES_AT as i32, 80);
    set_section(&mut buf, ASSEMBLIES, ASSEMBLIES_AT as i32, 68);
    set_section(&mut buf, TYPE_DEFINITIONS, TYPES_AT as i32, 100);
    set_section(&mut buf, USAGE_LISTS, LISTS_AT as i32, 16);
    set_section(&mut buf, USAGE_PAIRS, PAIRS_AT as i32, 8);
    buf[NAMES_AT..NAMES_AT + NAMES.len()].copy_from_slice(NAMES);
    // Four literals: "hello" at 0, "hi" at 5, three bytes of which one is
    // not UTF-8 at 7, and one that reaches beyond the section.
    let infos: [(u32, u32); 4] = [(5, 0), (2, 5), (3, 7), (4, 13)];
    for (i, (length, offset)) in infos.iter().enumerate() {
        buf[INFOS_AT + 8 * i..INFOS_AT + 8 * i + 4].copy_from_slice(&length.to_le_bytes());
        buf[INFOS_AT + 8 * i + 4..INFOS_AT + 8 * i + 8].copy_from_slice(&offset.to_le_bytes());
    }
    buf[LITERALS_AT..LITERALS_AT + 5].copy_from_slice(&obfuscate(b"hello"));
    buf[LITERALS_AT + 5..LITERALS_AT + 7].copy_from_slice(&obfuscate(b"hi"));
    buf[LITERALS_AT + 7..LITERALS_AT + 10].copy_from_slice(&[b'a', 0xFF, b'b']);
    buf[LITERALS_AT + 10..LITERALS_AT + 16].copy_from_slice(&[1, 2, 3, 4, 5, 6]);
    put_words(&mut buf, IMAGES_AT, 100, 20);
    put_words(&mut buf, ASSEMBLIES_AT, 200, 15);
    buf[ASSEMBLIES_AT + 60..ASSEMBLIES_AT + 68].copy_from_slice(b"\x11\x22\x33\x44\x55\x66\x77\x88");
    put_words(&mut buf, TYPES_AT, 300, 25);
    put_words(&mut buf, LISTS_AT, 400, 4);
    put_words(&mut buf, PAIRS_AT, 500, 2);
    buf
}

fn xor_text(bytes: &[u8]) -> String {
    String::from_utf8(bytes.to_vec()).unwrap()
}

#[test]
fn expected_magic_is_the_format_marker() {
    assert_eq!(EXPECTED_MAGIC, 0xFAB1_1BAF);
    assert_eq!(EXPECTED_MAGIC.to_le_bytes(), [0xAF, 0x1B, 0xB1, 0xFA]);
}

#[test]
fn sample_decodes_with_every_family() {
    let buf = sample();
    let m = GlobalMetadata::parse(&buf).unwrap();
    assert!(m.is_valid());
    assert_eq!(m.magic_bytes(), [0xAF, 0x1B, 0xB1, 0xFA]);
    assert_eq!(m.header.sanity, 0xFAB1_1BAF);
    assert_eq!(m.header.version, 24);
    assert_eq!(m.header.string_offset, 272);
    assert_eq!(m.header.images_count, 80);
    assert_eq!(m.string_data, NAMES.to_vec());
    assert_eq!(
        m.string_literal_infos,
        vec![
            StringLiteralInfo { length: 5, offset: 0 },
            StringLiteralInfo { length: 2, offset: 5 },
            StringLiteralInfo { length: 3, offset: 7 },
            StringLiteralInfo { length: 4, offset: 13 },
        ]
    );
    assert_eq!(m.images.len(), 2);
    assert_eq!(m.images[0].name_index, 100);
    assert_eq!(m.images[0].custom_attribute_count, 109);
    assert_eq!(m.images[1].name_index, 110);
    assert_eq!(m.images[1].token, 117);
    assert_eq!(m.assemblies.len(), 1);
    assert_eq!(m.assemblies[0].image_index, 200);
    assert_eq!(m.assemblies[0].aname.name_index, 204);
    assert_eq!(m.assemblies[0].aname.revision, 214);
    assert_eq!(
        m.assemblies[0].aname.public_key_token,
        [0x11, 0x22, 0x33, 0x44, 0x55, 0x66, 0x77, 0x88]
    );
    assert_eq!(m.type_definitions.len(), 1);
    assert_eq!(m.type_definitions[0].name_index, 300);
    assert_eq!(m.type_definitions[0].interface_offsets_start, 318);
    assert_eq!(m.type_definitions[0].method_count, 319);
    assert_eq!(m.type_definitions[0].property_count, 0);
    assert_eq!(m.type_definitions[0].field_count, 320);
    assert_eq!(m.type_definitions[0].interfaces_count, 322);
    assert_eq!(m.type_definitions[0].bitfield, 323);
    assert_eq!(m.type_definitions[0].token, 324);
    assert_eq!(
        m.metadata_usage_lists,
        vec![
            MetadataUsageList { start: 400, count: 401 },
            MetadataUsageList { start: 402, count: 403 },
        ]
    );
    assert_eq!(
        m.metadata_usage_pairs,
        vec![MetadataUsagePair { destination_index: 500, encoded_source_index: 501 }]
    );
}

#[test]
fn literals_are_captured_as_lossy_text() {
    let buf = sample();
    let m = GlobalMetadata::parse(&buf).unwrap();
    assert_eq!(m.string_literals.len(), 4);
    assert_eq!(m.string_literals[0], xor_text(&obfuscate(b"hello")));
    assert_eq!(m.string_literals[1], xor_text(&obfuscate(b"hi")));
    assert_eq!(m.string_literals[2], "a\u{FFFD}b");
    assert_eq!(m.string_literals[3], "");
}

#[test]
fn read_literal_decodes_a_range_or_gives_nothing() {
    let section = b"plain\xF0\x9F\x98\x80\x80text";
    let text = |length: u32, offset: u32| read_literal(section, &StringLiteralInfo { length, offset });
    assert_eq!(text(5, 0), "plain");
    assert_eq!(text(4, 5), "\u{1F600}");
    assert_eq!(text(3, 5), "\u{FFFD}");
    assert_eq!(text(1, 9), "\u{FFFD}");
    assert_eq!(text(5, 9), "\u{FFFD}text");
    assert_eq!(text(0, 14), "");
    assert_eq!(text(0, 15), "");
    assert_eq!(text(1, 14), "");
    assert_eq!(text(u32::MAX, 0), "");
    assert_eq!(text(u32::MAX, u32::MAX), "");
    assert_eq!(text(14, 0), "plain\u{1F600}\u{FFFD}text");
}

#[test]
fn wrong_marker_still_decodes() {
    let mut buf = sample();
    buf[0] = 0x00;
    let m = GlobalMetadata::parse(&buf).unwrap();
    assert!(!m.is_valid());
    assert_eq!(m.magic_bytes(), [0x00, 0x1B, 0xB1, 0xFA]);
    assert_eq!(m.header.sanity, 0xFAB1_1B00);
    assert_eq!(m.images.len(), 2);
    assert_eq!(m.string_literals.len(), 4);
    assert_eq!(m.get_string(0), Some("mscorlib"));
}

#[test]
fn validity_looks_only_at_the_marker() {
    let mut buf = sample();
    set_section(&mut buf, EVENTS, -5, i32::MAX);
    set_field(&mut buf, VERSION, -1);
    let m = GlobalMetadata::parse(&buf).unwrap();
    assert!(m.is_valid());
    assert_eq!(m.header.events_offset, -5);
    set_field(&mut buf, SANITY, 0x1234_5678);
    let m = GlobalMetadata::parse(&buf).unwrap();
    assert!(!m.is_valid());
    assert_eq!(m.magic_bytes(), [0x78, 0x56, 0x34, 0x12]);
}

#[test]
fn marker_does_not_change_how_decoding_fails() {
    let mut buf = sample();
    set_section(&mut buf, IMAGES, (TOTAL - 39) as i32, 40);
    let with_marker = GlobalMetadata::parse(&buf).err();
    buf[0..4].copy_from_slice(&[0, 0, 0, 0]);
    let without_marker = GlobalMetadata::parse(&buf).err();
    assert_eq!(with_marker, Some(overrun(TOTAL - 3, 4)));
    assert_eq!(with_marker, without_marker);
}

#[test]
fn header_only_buffer_decodes_to_empty_families() {
    let buf = vec![0u8; 272];
    let m = GlobalMetadata::parse(&buf).unwrap();
    assert!(!m.is_valid());
    assert_eq!(m.magic_bytes(), [0, 0, 0, 0]);
    assert!(m.string_literals.is_empty());
    assert!(m.string_literal_infos.is_empty());
    assert!(m.images.is_empty());
    assert!(m.assemblies.is_empty());
    assert!(m.type_definitions.is_empty());
    assert!(m.metadata_usage_lists.is_empty());
    assert!(m.metadata_usage_pairs.is_empty());
    assert!(m.string_data.is_empty());
    assert_eq!(m.get_string(0), None);
}

#[test]
fn short_buffer_fails_in_the_header() {
    assert_eq!(GlobalMetadata::parse(&[]).err(), Some(overrun(0, 4)));
    assert_eq!(GlobalMetadata::parse(&[0u8; 3]).err(), Some(overrun(0, 4)));
    assert_eq!(GlobalMetadata::parse(&[0u8; 10]).err(), Some(overrun(8, 4)));
    assert_eq!(GlobalMetadata::parse(&sample()[..271]).err(), Some(overrun(268, 4)));
}

#[test]
fn name_pool_beyond_the_buffer_is_a_section_failure() {
    let mut buf = sample();
    set_section(&mut buf, STRING, NAMES_AT as i32, (TOTAL - NAMES_AT + 1) as i32);
    assert_eq!(GlobalMetadata::parse(&buf).err(), Some(ParseError::SectionOutOfBounds));
    set_section(&mut buf, STRING, NAMES_AT as i32, (TOTAL - NAMES_AT) as i32);
    assert!(GlobalMetadata::parse(&buf).is_ok());
    set_section(&mut buf, STRING, -1, 0);
    assert_eq!(GlobalMetadata::parse(&buf).err(), Some(ParseError::SectionOutOfBounds));
    set_section(&mut buf, STRING, 0, -1);
    assert_eq!(GlobalMetadata::parse(&buf).err(), Some(ParseError::SectionOutOfBounds));
}

#[test]
fn literal_data_beyond_the_buffer_is_a_section_failure() {
    let mut buf = sample();
    set_section(&mut buf, STRING_LITERAL_DATA, (TOTAL + 1) as i32, 0);
    assert_eq!(GlobalMetadata::parse(&buf).err(), Some(ParseError::SectionOutOfBounds));
    set_section(&mut buf, STRING_LITERAL_DATA, TOTAL as i32, 0);
    let m = GlobalMetadata::parse(&buf).unwrap();
    assert_eq!(m.string_literals, vec!["", "", "", ""]);
}

#[test]
fn each_family_beyond_the_buffer_is_an_overrun() {
    let cases: [(usize, usize, usize); 6] = [
        (STRING_LITERAL, 8, 4),
        (IMAGES, 40, 4),
        (ASSEMBLIES, 68, 8),
        (TYPE_DEFINITIONS, 100, 4),
        (USAGE_LISTS, 8, 4),
        (USAGE_PAIRS, 8, 4),
    ];
    for (index, stride, last_width) in cases {
        let mut buf = sample();
        set_section(&mut buf, index, (TOTAL - stride + 1) as i32, stride as i32);
        assert_eq!(
            GlobalMetadata::parse(&buf).err(),
            Some(overrun(TOTAL + 1 - last_width, last_width))
        );
        set_section(&mut buf, index, (TOTAL - stride) as i32, stride as i32);
        assert!(GlobalMetadata::parse(&buf).is_ok());
    }
}

#[test]
fn the_first_failure_in_reading_order_is_reported() {
    let mut buf = sample();
    set_section(&mut buf, USAGE_PAIRS, TOTAL as i32, 8);
    set_section(&mut buf, IMAGES, (TOTAL - 10) as i32, 40);
    assert_eq!(GlobalMetadata::parse(&buf).err(), Some(overrun(TOTAL - 2, 4)));
    set_section(&mut buf, STRING_LITERAL_DATA, 0, (TOTAL + 1) as i32);
    assert_eq!(GlobalMetadata::parse(&buf).err(), Some(ParseError::SectionOutOfBounds));
    set_section(&mut buf, STRING_LITERAL, (TOTAL - 4) as i32, 8);
    assert_eq!(GlobalMetadata::parse(&buf).err(), Some(overrun(TOTAL, 4)));
    set_section(&mut buf, STRING, 1, TOTAL as i32);
    assert_eq!(GlobalMetadata::parse(&buf).err(), Some(ParseError::SectionOutOfBounds));
}

#[test]
fn remainder_of_a_family_is_dropped_without_error() {
    let mut buf = sample();
    set_section(&mut buf, IMAGES, IMAGES_AT as i32, 119);
    let m = GlobalMetadata::parse(&buf).unwrap();
    assert_eq!(m.images.len(), 2);
    set_section(&mut buf, IMAGES, IMAGES_AT as i32, 79);
    let m = GlobalMetadata::parse(&buf).unwrap();
    assert_eq!(m.images.len(), 1);
    set_section(&mut buf, USAGE_PAIRS, PAIRS_AT as i32, 15);
    let m = GlobalMetadata::parse(&buf).unwrap();
    assert_eq!(m.metadata_usage_pairs.len(), 1);
    set_section(&mut buf, TYPE_DEFINITIONS, i32::MAX, 99);
    let m = GlobalMetadata::parse(&buf).unwrap();
    assert!(m.type_definitions.is_empty());
}

#[test]
fn unread_sections_are_not_checked() {
    let mut buf = sample();
    for index in [8usize, 10, 12, 20, 30, 42, 52, 60, 66] {
        set_section(&mut buf, index, i32::MAX, i32::MAX);
    }
    assert!(GlobalMetadata::parse(&buf).is_ok());
}

#[test]
fn negative_family_fields_never_read_outside_the_buffer() {
    let mut buf = sample();
    set_section(&mut buf, IMAGES, -1, 0);
    assert!(GlobalMetadata::parse(&buf).unwrap().images.is_empty());
    set_section(&mut buf, IMAGES, -8, 40);
    assert_eq!(GlobalMetadata::parse(&buf).err(), Some(overrun(usize::MAX - 7, 4)));
    set_section(&mut buf, IMAGES, (TOTAL - 44) as i32, -1);
    assert_eq!(GlobalMetadata::parse(&buf).err(), Some(overrun(TOTAL, 4)));
}

#[test]
fn names_are_looked_up_by_offset() {
    let m = GlobalMetadata::parse(&sample()).unwrap();
    assert_eq!(m.get_string(0), Some("mscorlib"));
    assert_eq!(m.get_string(2), Some("corlib"));
    assert_eq!(m.get_string(8), Some(""));
    assert_eq!(m.get_string(9), Some("System"));
    assert_eq!(m.get_string(16), Some("\u{E9}t\u{E9}"));
    assert_eq!(m.get_string(18), Some("t\u{E9}"));
}

#[test]
fn last_name_needs_no_terminator() {
    let m = GlobalMetadata::parse(&sample()).unwrap();
    assert_eq!(m.get_string(27), Some("last"));
    assert_eq!(m.get_string(30), Some("t"));
}

#[test]
fn names_outside_the_pool_are_absent() {
    let m = GlobalMetadata::parse(&sample()).unwrap();
    assert_eq!(m.string_data.len(), 31);
    assert_eq!(m.get_string(31), None);
    assert_eq!(m.get_string(32), None);
    assert_eq!(m.get_string(i32::MAX), None);
    assert_eq!(m.get_string(-1), None);
    assert_eq!(m.get_string(i32::MIN), None);
}

#[test]
fn names_that_are_not_utf8_are_absent() {
    let m = GlobalMetadata::parse(&sample()).unwrap();
    assert_eq!(m.get_string(22), None);
    assert_eq!(m.get_string(23), Some("bad"));
    assert_eq!(m.get_string(17), None);
    assert_eq!(m.get_string(20), None);
}

#[test]
fn deobfuscation_xors_each_literal_with_its_key() {
    let mut buf = sample();
    let m = GlobalMetadata::parse(&buf).unwrap();
    assert_eq!(decrypt_string_literals(&m, &mut buf), Ok(()));
    assert_eq!(&buf[LITERALS_AT..LITERALS_AT + 5], b"hello");
    assert_eq!(&buf[LITERALS_AT + 5..LITERALS_AT + 7], b"hi");
    let key = 3u8 ^ 0x2E;
    assert_eq!(&buf[LITERALS_AT + 7..LITERALS_AT + 10], &[b'a' ^ key, 0xFF ^ key, b'b' ^ key]);
}

#[test]
fn deobfuscation_touches_nothing_outside_the_literals() {
    let original = sample();
    let mut buf = original.clone();
    let m = GlobalMetadata::parse(&buf).unwrap();
    assert_eq!(decrypt_string_literals(&m, &mut buf), Ok(()));
    assert_eq!(&buf[..LITERALS_AT], &original[..LITERALS_AT]);
    assert_eq!(&buf[LITERALS_AT + 10..LITERALS_AT + 13], &original[LITERALS_AT + 10..LITERALS_AT + 13]);
    assert_eq!(&buf[LITERALS_AT + 17..], &original[LITERALS_AT + 17..]);
}

#[test]
fn deobfuscation_reaches_to_the_end_of_the_buffer_not_of_the_section() {
    let mut buf = sample();
    let m = GlobalMetadata::parse(&buf).unwrap();
    assert_eq!(m.string_literals[3], "");
    assert_eq!(decrypt_string_literals(&m, &mut buf), Ok(()));
    // The fourth literal lies beyond its section but inside the buffer.
    let key = 4u8 ^ 0x2E;
    assert_eq!(&buf[LITERALS_AT + 13..LITERALS_AT + 16], &[4 ^ key, 5 ^ key, 6 ^ key]);
    assert_eq!(buf[LITERALS_AT + 16], 100 ^ key);
}

#[test]
fn deobfuscation_keeps_the_captured_texts() {
    let mut buf = sample();
    let m = GlobalMetadata::parse(&buf).unwrap();
    let before = m.string_literals.clone();
    assert_eq!(decrypt_string_literals(&m, &mut buf), Ok(()));
    assert_eq!(m.string_literals, before);
    let again = GlobalMetadata::parse(&buf).unwrap();
    assert_eq!(again.string_literals[0], "hello");
    assert_eq!(again.string_literals[1], "hi");
}

#[test]
fn deobfuscation_twice_restores_the_buffer() {
    let original = sample();
    let mut buf = original.clone();
    let m = GlobalMetadata::parse(&buf).unwrap();
    assert_eq!(decrypt_string_literals(&m, &mut buf), Ok(()));
    assert_ne!(buf, original);
    assert_eq!(decrypt_string_literals(&m, &mut buf), Ok(()));
    assert_eq!(buf, original);
}

#[test]
fn deobfuscation_skips_literals_outside_the_buffer() {
    let mut m = GlobalMetadata::parse(&sample()).unwrap();
    m.string_literal_infos = vec![
        StringLiteralInfo { length: 4, offset: 5 },
        StringLiteralInfo { length: 1, offset: u32::MAX },
        StringLiteralInfo { length: u32::MAX, offset: 0 },
        StringLiteralInfo { length: 3, offset: 0 },
        StringLiteralInfo { length: 0, offset: 2 },
    ];
    m.header.string_literal_data_offset = 2;
    let mut small = vec![10u8, 11, 12, 13, 14, 15, 16, 17, 18, 19];
    assert_eq!(decrypt_string_literals(&m, &mut small), Ok(()));
    let key = 3u8 ^ 0x2E;
    assert_eq!(small, vec![10, 11, 12 ^ key, 13 ^ key, 14 ^ key, 15, 16, 17, 18, 19]);
    m.header.string_literal_data_offset = -1;
    assert_eq!(decrypt_string_literals(&m, &mut small), Ok(()));
    assert_eq!(small, vec![10, 11, 12 ^ key, 13 ^ key, 14 ^ key, 15, 16, 17, 18, 19]);
}

#[test]
fn overlapping_literals_are_xored_once_each() {
    let mut m = GlobalMetadata::parse(&sample()).unwrap();
    m.string_literal_infos = vec![
        StringLiteralInfo { length: 4, offset: 0 },
        StringLiteralInfo { length: 2, offset: 1 },
        StringLiteralInfo { length: 4, offset: 0 },
    ];
    m.header.string_literal_data_offset = 1;
    let mut small = vec![1u8, 2, 3, 4, 5, 6];
    assert_eq!(decrypt_string_literals(&m, &mut small), Ok(()));
    let key = 2u8 ^ 0x2E;
    assert_eq!(small, vec![1, 2, 3 ^ key, 4 ^ key, 5, 6]);
}

#[test]
fn deobfuscation_key_uses_the_low_byte_of_the_length() {
    let mut m = GlobalMetadata::parse(&sample()).unwrap();
    m.string_literal_infos = vec![StringLiteralInfo { length: 0x12E, offset: 0 }];
    m.header.string_literal_data_offset = 0;
    let mut data = vec![0x5Au8; 0x130];
    assert_eq!(decrypt_string_literals(&m, &mut data), Ok(()));
    assert_eq!(&data[..0x12E], &vec![0x5Au8; 0x12E][..]);
    m.string_literal_infos = vec![StringLiteralInfo { length: 0x101, offset: 0 }];
    assert_eq!(decrypt_string_literals(&m, &mut data), Ok(()));
    assert_eq!(&data[..0x101], &vec![0x5Au8 ^ 0x2F; 0x101][..]);
    assert_eq!(&data[0x101..], &vec![0x5Au8; 0x2F][..]);
}
