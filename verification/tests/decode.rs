use linfit::decode::{detect_encoding, utf16_units, Encoding};

#[test]
fn detects_utf16_le_bom() {
    let bytes: Vec<u8> = vec![0xFF, 0xFE, 0x41, 0x00];
    assert_eq!(detect_encoding(&bytes), Encoding::Utf16Le);
}

#[test]
fn detects_utf16_be_bom() {
    let bytes: Vec<u8> = vec![0xFE, 0xFF, 0x00, 0x41];
    assert_eq!(detect_encoding(&bytes), Encoding::Utf16Be);
}

#[test]
fn no_bom_means_utf8() {
    let bytes: Vec<u8> = b"1 2\n3 4\n".to_vec();
    assert_eq!(detect_encoding(&bytes), Encoding::Utf8);
}

#[test]
fn empty_and_short_buffers_are_utf8() {
    assert_eq!(detect_encoding(&Vec::new()), Encoding::Utf8);
    assert_eq!(detect_encoding(&vec![0xFF]), Encoding::Utf8);
    assert_eq!(detect_encoding(&vec![0xFE]), Encoding::Utf8);
}

#[test]
fn reversed_bom_bytes_are_not_a_bom() {
    // 0xFE 0xFF is big-endian; 0xFF 0xFE little-endian; 0xFF 0xFF neither.
    assert_eq!(detect_encoding(&vec![0xFF, 0xFF]), Encoding::Utf8);
    assert_eq!(detect_encoding(&vec![0xFE, 0xFE]), Encoding::Utf8);
}

#[test]
fn assembles_little_endian_units() {
    // BOM, then "Hi" in UTF-16 LE.
    let bytes: Vec<u8> = vec![0xFF, 0xFE, 0x48, 0x00, 0x69, 0x00];
    let units = utf16_units(&bytes, false);
    assert_eq!(units, vec![0x0048, 0x0069]);
    assert_eq!(String::from_utf16(&units).unwrap(), "Hi");
}

#[test]
fn assembles_big_endian_units() {
    // BOM, then "Hi" in UTF-16 BE.
    let bytes: Vec<u8> = vec![0xFE, 0xFF, 0x00, 0x48, 0x00, 0x69];
    let units = utf16_units(&bytes, true);
    assert_eq!(units, vec![0x0048, 0x0069]);
    assert_eq!(String::from_utf16(&units).unwrap(), "Hi");
}

#[test]
fn trailing_unpaired_byte_is_dropped() {
    let bytes: Vec<u8> = vec![0xFF, 0xFE, 0x41, 0x00, 0x7A];
    let units = utf16_units(&bytes, false);
    assert_eq!(units, vec![0x0041]);
}

#[test]
fn bom_only_buffer_yields_no_units() {
    let bytes: Vec<u8> = vec![0xFF, 0xFE];
    assert_eq!(utf16_units(&bytes, false), Vec::<u16>::new());
    let bytes_be: Vec<u8> = vec![0xFE, 0xFF];
    assert_eq!(utf16_units(&bytes_be, true), Vec::<u16>::new());
}

#[test]
fn endianness_changes_the_unit_value() {
    let bytes: Vec<u8> = vec![0xFF, 0xFE, 0x12, 0x34];
    assert_eq!(utf16_units(&bytes, false), vec![0x3412]);
    assert_eq!(utf16_units(&bytes, true), vec![0x1234]);
}
