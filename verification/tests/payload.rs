use rinha_rust_warp::payload::{clean_payload, scrub_text};

#[test]
fn ascii_payload_is_unchanged() {
    let json = br#"{"correlationId":"4a7901b8-7d26-4d9d-aa19-4dc1c7cf60b3","amount":19.9}"#;
    assert_eq!(clean_payload(json), String::from_utf8(json.to_vec()).unwrap());
}

#[test]
fn odd_spaces_become_plain_spaces() {
    let raw = "{\u{00A0}\"amount\":\u{202F}19.9,\u{2009}\"x\":1}";
    assert_eq!(clean_payload(raw.as_bytes()), "{ \"amount\": 19.9, \"x\":1}");
}

#[test]
fn zero_width_spaces_are_dropped() {
    let raw = "{\u{200B}\"amount\"\u{200B}:1}";
    assert_eq!(clean_payload(raw.as_bytes()), "{\"amount\":1}");
}

#[test]
fn invalid_utf8_becomes_replacement_character() {
    let raw = [b'{', 0xff, b'}'];
    assert_eq!(clean_payload(&raw), "{\u{FFFD}}");
}

#[test]
fn cleaning_twice_is_cleaning_once() {
    let raw = "a\u{00A0}b\u{200B}c\u{2009}";
    let once = scrub_text(raw);
    assert_eq!(once, "a bc ");
    assert_eq!(scrub_text(&once), once);
}

#[test]
fn other_unicode_is_kept() {
    assert_eq!(clean_payload("café \u{3000}".as_bytes()), "café \u{3000}");
}

#[test]
fn empty_payload_is_empty_text() {
    assert_eq!(clean_payload(&[]), "");
}

#[test]
fn cleaning_matches_the_four_replacements() {
    let samples: [&[u8]; 4] = [
        "{\u{00A0}\u{202F}\u{2009}\u{200B}}".as_bytes(),
        b"plain",
        &[0xe2, 0x80, 0x8b, b'x', 0xc2],
        "\u{200B}\u{200B}a\u{00A0}".as_bytes(),
    ];
    for raw in samples {
        let expected = String::from_utf8_lossy(raw)
            .replace('\u{00A0}', " ")
            .replace('\u{202F}', " ")
            .replace('\u{2009}', " ")
            .replace('\u{200B}', "");
        assert_eq!(clean_payload(raw), expected);
    }
}

#[test]
fn encoded_text_round_trips() {
    let text = "{\"correlationId\":\"ação-π\",\"amount\":1.5}";
    assert_eq!(clean_payload(text.as_bytes()), text);
    assert_eq!(clean_payload("\u{00A0}".as_bytes()), " ");
}
