use installer_probe::installers::nsis::{decode_number_from_char, nsis_string, NsisVersion};

/// A 16-bit-text string table: the marker word, then the given entries.
fn unicode_table(entries: &[&str]) -> Vec<u8> {
    let mut block = vec![0u8, 0u8];
    for entry in entries {
        for unit in entry.encode_utf16() {
            block.extend_from_slice(&unit.to_le_bytes());
        }
        block.extend_from_slice(&[0, 0]);
    }
    block
}

#[test]
fn unicode_literal_decodes_exactly() {
    let block = unicode_table(&["Hello, world"]);
    // the marker word occupies relative offset 0; the entry starts at 1
    let text = nsis_string(&block, 1, NsisVersion::v3()).expect("table is well formed");
    assert_eq!(text, "Hello, world");
}

#[test]
fn skip_code_escapes_a_special_byte() {
    // ANSI table (first word is not zero); entry at offset 2:
    // skip code 4, then the shell code byte 2, which must land literally
    let block = vec![1u8, 0u8, 4u8, 2u8, 0u8];
    let text = nsis_string(&block, 2, NsisVersion::v3()).expect("table is well formed");
    assert_eq!(text, "\u{2}");
}

#[test]
fn variable_reference_resolves_to_its_name() {
    // ANSI table; var code 3, packed index 21 = $INSTDIR, then a literal
    let block = vec![1u8, 0u8, 3u8, 21u8, 0x80u8, b'!', 0u8];
    let text = nsis_string(&block, 2, NsisVersion::v3()).expect("table is well formed");
    assert_eq!(text, "$INSTDIR!");
}

#[test]
fn unicode_variable_reference_resolves() {
    // 16-bit table; var code unit 3, then one packed-index unit
    let mut block = vec![0u8, 0u8];
    for unit in [3u16, 0x0100u16] {
        block.extend_from_slice(&unit.to_le_bytes());
    }
    block.extend_from_slice(&[0, 0]);
    let text = nsis_string(&block, 1, NsisVersion::v3()).expect("table is well formed");
    // index 128 is user-defined: a stable placeholder
    assert_eq!(text, "$__97__");
}

#[test]
fn shell_reference_resolves_to_folder_constant() {
    // ANSI table; shell code 2, low index byte 0x1A = $APPDATA
    let block = vec![1u8, 0u8, 2u8, 0x1A, 0x80, 0u8];
    let text = nsis_string(&block, 2, NsisVersion::v3()).expect("table is well formed");
    assert_eq!(text, "$APPDATA");
}

#[test]
fn unresolvable_reference_degrades_to_nothing() {
    // language code 1 with an index no table entry backs: empty insertion
    let block = vec![1u8, 0u8, 1u8, 5u8, 0x80, b'x', 0u8];
    let text = nsis_string(&block, 2, NsisVersion::v3()).expect("table is well formed");
    assert_eq!(text, "x");
}

#[test]
fn second_generation_codes_sit_at_the_top() {
    // ANSI table; 252 is the skip code in the second generation
    let block = vec![1u8, 0u8, 252u8, 253u8, 0u8];
    let text = nsis_string(&block, 2, NsisVersion::v2()).expect("table is well formed");
    assert_eq!(text, "\u{fd}");
}

#[test]
fn truncated_table_is_an_error() {
    let block = vec![1u8, 0u8, b'a', b'b'];
    assert!(nsis_string(&block, 2, NsisVersion::v3()).is_none());
    assert!(nsis_string(&block, 9, NsisVersion::v3()).is_none());
    assert!(nsis_string(&[1u8], 0, NsisVersion::v3()).is_none());
}

#[test]
fn packed_index_combines_low_seven_bits() {
    assert_eq!(decode_number_from_char(0x0115), 0x95);
    assert_eq!(decode_number_from_char(0x8095), 0x15);
    assert_eq!(decode_number_from_char(0x0015), 0x15);
}
