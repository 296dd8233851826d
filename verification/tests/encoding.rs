use script_pipeline::encoder::encode;
use script_pipeline::utf16::decode_utf16le_chars;

fn utf16le_with_bom(text: &str) -> Vec<u8> {
    let mut bytes = vec![0xFF, 0xFE];
    for unit in text.encode_utf16() {
        bytes.extend_from_slice(&unit.to_le_bytes());
    }
    bytes
}

#[test]
fn encode_normalizes_lone_lf_to_crlf() {
    let payload = encode("A\nB");
    assert_eq!(
        payload,
        vec![0xFF, 0xFE, 0x41, 0x00, 0x0D, 0x00, 0x0A, 0x00, 0x42, 0x00]
    );
}

#[test]
fn encode_keeps_existing_crlf_undoubled() {
    assert_eq!(encode("A\r\nB"), encode("A\nB"));
}

#[test]
fn encode_keeps_lone_cr_verbatim() {
    let payload = encode("A\rB");
    assert_eq!(payload, vec![0xFF, 0xFE, 0x41, 0x00, 0x0D, 0x00, 0x42, 0x00]);
}

#[test]
fn encode_astral_character_as_surrogate_pair() {
    // U+1D11E is encoded as the surrogate pair D834 DD1E
    let payload = encode("\u{1D11E}");
    assert_eq!(payload, vec![0xFF, 0xFE, 0x34, 0xD8, 0x1E, 0xDD]);
}

#[test]
fn encode_payload_opens_with_bom_and_is_even() {
    for text in ["", "x", "многострочный\nтекст", "a\r\nb\nc\r", "\u{10FFFF}"] {
        let payload = encode(text);
        assert_eq!(&payload[..2], &[0xFF, 0xFE]);
        assert_eq!(payload.len() % 2, 0);
    }
}

#[test]
fn encode_matches_reference_utf16le_of_normalized_text() {
    let script = "On Error Resume Next\nWScript.Echo \"ok\"\r\nДа\r";
    let normalized = "On Error Resume Next\r\nWScript.Echo \"ok\"\r\nДа\r";
    assert_eq!(encode(script), utf16le_with_bom(normalized));
}

#[test]
fn encoding_round_trip_restores_normalized_text() {
    // For text with mixed line terminators, decoding the payload after the
    // byte-order mark yields the CRLF-normalized source text.
    let cases = [
        "plain",
        "a\nb",
        "a\r\nb",
        "a\rb",
        "mix\r\nof\nall\rthree\n",
        "юникод\nстрока \u{1D11E}\r\n",
        "",
    ];
    for text in cases {
        let payload = encode(text);
        let decoded: String = decode_utf16le_chars(&payload[2..]).into_iter().collect();
        let normalized: String = {
            let mut out = String::new();
            let chars: Vec<char> = text.chars().collect();
            let mut i = 0;
            while i < chars.len() {
                if chars[i] == '\r' && i + 1 < chars.len() && chars[i + 1] == '\n' {
                    out.push_str("\r\n");
                    i += 2;
                } else if chars[i] == '\n' {
                    out.push_str("\r\n");
                    i += 1;
                } else {
                    out.push(chars[i]);
                    i += 1;
                }
            }
            out
        };
        assert_eq!(decoded, normalized);
    }
}
