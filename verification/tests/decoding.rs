use script_pipeline::decoder::{clean_output, decode};

fn utf16le_with_bom(text: &str) -> Vec<u8> {
    let mut bytes = vec![0xFF, 0xFE];
    for unit in text.encode_utf16() {
        bytes.extend_from_slice(&unit.to_le_bytes());
    }
    bytes
}

#[test]
fn decode_plain_ascii_without_bom() {
    assert_eq!(decode(b"ok\r\n"), "ok");
}

#[test]
fn decode_bom_selects_utf16le() {
    let bytes = utf16le_with_bom("Error: bad path");
    assert_eq!(decode(&bytes), "Error: bad path");
}

#[test]
fn decode_bom_only_prefix() {
    assert_eq!(decode(&[0xFF, 0xFE, 0x41, 0x00]), "A");
}

#[test]
fn decode_empty_input_is_empty() {
    assert_eq!(decode(b""), "");
    assert_eq!(decode(&[0xFF, 0xFE]), "");
}

#[test]
fn decode_trailing_lone_byte_becomes_replacement() {
    assert_eq!(decode(&[0xFF, 0xFE, 0x41, 0x00, 0x61]), "A\u{FFFD}");
}

#[test]
fn decode_unpaired_high_surrogate_becomes_replacement() {
    // D834 not followed by a low surrogate
    assert_eq!(decode(&[0xFF, 0xFE, 0x34, 0xD8, 0x41, 0x00]), "\u{FFFD}A");
}

#[test]
fn decode_unpaired_low_surrogate_becomes_replacement() {
    assert_eq!(decode(&[0xFF, 0xFE, 0x1E, 0xDD, 0x41, 0x00]), "\u{FFFD}A");
}

#[test]
fn decode_surrogate_pair() {
    assert_eq!(decode(&[0xFF, 0xFE, 0x34, 0xD8, 0x1E, 0xDD]), "\u{1D11E}");
}

#[test]
fn decode_strips_embedded_nuls() {
    let bytes = [0xFF, 0xFE, 0x41, 0x00, 0x00, 0x00, 0x42, 0x00];
    assert_eq!(decode(&bytes), "AB");
}

#[test]
fn decode_collapses_crlf_and_trims() {
    let bytes = utf16le_with_bom("x\r\n\r\ny\r\n");
    assert_eq!(decode(&bytes), "x\n\ny");
}

#[test]
fn decode_detects_utf8_without_bom() {
    // valid non-ASCII UTF-8 makes the statistical detector settle on UTF-8
    let bytes = "Привет, мир".as_bytes();
    assert_eq!(decode(bytes), "Привет, мир");
}

#[test]
fn decode_detects_legacy_cyrillic() {
    // "Ошибка выполнения" in the windows-1251 code page
    let bytes: Vec<u8> = vec![
        0xCE, 0xF8, 0xE8, 0xE1, 0xEA, 0xE0, 0x20, 0xE2, 0xFB, 0xEF, 0xEE, 0xEB, 0xED, 0xE5, 0xED,
        0xE8, 0xFF,
    ];
    assert_eq!(decode(&bytes), "Ошибка выполнения");
}

#[test]
fn decode_is_deterministic() {
    let inputs: [&[u8]; 4] = [b"ok\r\n", b"", &[0xFF, 0xFE, 0x34, 0xD8], b"\xCE\xF8"];
    for bytes in inputs {
        assert_eq!(decode(bytes), decode(bytes));
    }
}

#[test]
fn decode_trims_unicode_whitespace() {
    // no-break space and ideographic space carry the White_Space property
    let bytes = [0xFF, 0xFE, 0xA0, 0x00, 0x78, 0x00, 0x00, 0x30];
    assert_eq!(decode(&bytes), "x");
}

#[test]
fn clean_output_strips_nuls_collapses_crlf_and_trims() {
    assert_eq!(clean_output("\0a\r\nb  ".to_string()), "a\nb");
    assert_eq!(clean_output("  \r\n ".to_string()), "");
    assert_eq!(clean_output("плю\u{0}с".to_string()), "плюс");
}
