use metadata_unpacker::extractor::{
    find_pattern, ExtractionError, Extractor, HEAD_PATTERN, TAIL_PATTERN,
};

fn embed(before: &[u8], blob: &[u8], after: &[u8]) -> Vec<u8> {
    let mut data = Vec::new();
    data.extend_from_slice(before);
    data.extend_from_slice(&HEAD_PATTERN);
    data.extend_from_slice(blob);
    data.extend_from_slice(&TAIL_PATTERN);
    data.extend_from_slice(after);
    data
}

#[test]
fn markers_have_their_fixed_bytes() {
    assert_eq!(HEAD_PATTERN, [0x43, 0x00, 0x46, 0x00, 0x47, 0x00, 0x00, 0x00, 0x00, 0x00]);
    assert_eq!(&HEAD_PATTERN, b"C\0F\0G\0\0\0\0\0");
    assert_eq!(TAIL_PATTERN, [0x00, 0x00, 0x00, 0x00]);
}

#[test]
fn extracts_blob_between_markers() {
    let blob = [0x11u8, 0x22, 0x00, 0x33, 0x00, 0x00, 0x44, 0x00, 0x00, 0x00, 0x55];
    let data = embed(&[0xDE, 0xAD, 0x43, 0x00, 0x46], &blob, &[0x99, 0x98, 0x00, 0x00, 0x00, 0x00]);
    let mut extractor = Extractor::new(&data);
    assert_eq!(extractor.process(), Ok(()));
    assert_eq!(extractor.get_valid_data(), &blob[..]);
}

#[test]
fn extracts_blob_at_the_very_start_and_end() {
    let blob = [0x01u8, 0x02, 0x03];
    let data = embed(&[], &blob, &[]);
    let mut extractor = Extractor::new(&data);
    assert_eq!(extractor.process(), Ok(()));
    assert_eq!(extractor.get_valid_data(), &blob[..]);
}

#[test]
fn extracts_empty_blob_when_tail_follows_head() {
    let data = embed(&[0x07], &[], &[0x08]);
    let mut extractor = Extractor::new(&data);
    assert_eq!(extractor.process(), Ok(()));
    assert!(extractor.get_valid_data().is_empty());
}

#[test]
fn nothing_is_extracted_before_process() {
    let data = embed(&[], &[0x01], &[]);
    let extractor = Extractor::new(&data);
    assert!(extractor.get_valid_data().is_empty());
}

#[test]
fn head_not_found_in_empty_input() {
    let mut extractor = Extractor::new(&[]);
    assert_eq!(extractor.process(), Err(ExtractionError::HeadNotFound));
    assert!(extractor.get_valid_data().is_empty());
}

#[test]
fn head_not_found_when_marker_is_absent() {
    let data = [0x43u8, 0x00, 0x46, 0x00, 0x47, 0x00, 0x00, 0x00, 0x00, 0x01, 0x00, 0x00, 0x00, 0x00];
    let mut extractor = Extractor::new(&data);
    assert_eq!(extractor.process(), Err(ExtractionError::HeadNotFound));
}

#[test]
fn head_not_found_when_marker_is_cut_short() {
    let mut extractor = Extractor::new(&HEAD_PATTERN[..9]);
    assert_eq!(extractor.process(), Err(ExtractionError::HeadNotFound));
}

#[test]
fn tail_not_found_when_no_zero_run_follows() {
    let mut data = vec![0x00u8, 0x00, 0x00, 0x00, 0x00];
    data.extend_from_slice(&HEAD_PATTERN);
    data.extend_from_slice(&[0x01, 0x00, 0x00, 0x00, 0x02, 0x00, 0x00, 0x00]);
    let mut extractor = Extractor::new(&data);
    assert_eq!(extractor.process(), Err(ExtractionError::TailNotFound));
    assert!(extractor.get_valid_data().is_empty());
}

#[test]
fn tail_not_found_when_head_ends_the_input() {
    let mut extractor = Extractor::new(&HEAD_PATTERN);
    assert_eq!(extractor.process(), Err(ExtractionError::TailNotFound));
}

#[test]
fn zeros_of_the_head_are_not_taken_for_the_tail() {
    let mut data = Vec::new();
    data.extend_from_slice(&HEAD_PATTERN);
    data.extend_from_slice(&[0x00, 0x00, 0x00]);
    let mut extractor = Extractor::new(&data);
    assert_eq!(extractor.process(), Err(ExtractionError::TailNotFound));
}

#[test]
fn blob_is_cut_at_an_early_zero_run() {
    let blob = [0xAAu8, 0xBB, 0x00, 0x00, 0x00, 0x00, 0xCC, 0xDD];
    let data = embed(&[0x01], &blob, &[0x02]);
    let mut extractor = Extractor::new(&data);
    assert_eq!(extractor.process(), Ok(()));
    assert_eq!(extractor.get_valid_data(), &[0xAAu8, 0xBB][..]);
}

#[test]
fn blob_that_ends_in_zero_loses_its_last_byte() {
    let blob = [0x01u8, 0x00];
    let data = embed(&[], &blob, &[0xFF]);
    let mut extractor = Extractor::new(&data);
    assert_eq!(extractor.process(), Ok(()));
    assert_eq!(extractor.get_valid_data(), &[0x01u8][..]);
}

#[test]
fn the_leftmost_head_is_the_one_used() {
    let first = [0x10u8, 0x20];
    let second = [0x30u8, 0x40];
    let mut data = embed(&[0xEE], &first, &[0x05]);
    data.extend_from_slice(&embed(&[], &second, &[]));
    let mut extractor = Extractor::new(&data);
    assert_eq!(extractor.process(), Ok(()));
    assert_eq!(extractor.get_valid_data(), &first[..]);
}

#[test]
fn process_twice_gives_the_same_blob() {
    let blob = [0x09u8, 0x08, 0x07];
    let data = embed(&[0x01, 0x02], &blob, &[0x03]);
    let mut extractor = Extractor::new(&data);
    assert_eq!(extractor.process(), Ok(()));
    assert_eq!(extractor.process(), Ok(()));
    assert_eq!(extractor.get_valid_data(), &blob[..]);
}

#[test]
fn extract_data_pattern_is_what_process_runs() {
    let blob = [0x61u8, 0x62];
    let data = embed(&[0x01], &blob, &[]);
    let mut extractor = Extractor::new(&data);
    assert_eq!(extractor.extract_data_pattern(), Ok(()));
    assert_eq!(extractor.valid_data, blob.to_vec());
    assert_eq!(extractor.dll_data, &data[..]);
}

#[test]
fn find_pattern_returns_the_leftmost_position() {
    let data = [1u8, 2, 3, 1, 2, 3, 1, 2];
    assert_eq!(find_pattern(&data, &[1, 2], 0), Some(0));
    assert_eq!(find_pattern(&data, &[1, 2], 1), Some(3));
    assert_eq!(find_pattern(&data, &[1, 2], 4), Some(6));
    assert_eq!(find_pattern(&data, &[1, 2], 7), None);
    assert_eq!(find_pattern(&data, &[2, 3, 1, 2], 0), Some(1));
    assert_eq!(find_pattern(&data, &[3, 3], 0), None);
}

#[test]
fn find_pattern_handles_short_data_and_late_starts() {
    assert_eq!(find_pattern(&[], &[0], 0), None);
    assert_eq!(find_pattern(&[5], &[5, 5], 0), None);
    assert_eq!(find_pattern(&[5, 5], &[5, 5], 0), Some(0));
    assert_eq!(find_pattern(&[5, 5], &[5], 2), None);
    assert_eq!(find_pattern(&[5, 5], &[5], 9), None);
    assert_eq!(find_pattern(&[5, 5], &[5], usize::MAX), None);
}
