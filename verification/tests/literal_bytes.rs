use net_traffic_capture::literal_bytes::LiteralBytes;

#[test]
fn test_literal_bytes() {
    let hw = b"Hello, World!";
    let expected = "b\"Hello, World!\"";
    let actual = LiteralBytes(hw).to_string();
    assert_eq!(expected, actual);

    let test_sequence = [
        // byte, escaped
        (0, "\\x00"),
        (1, "\\x01"),
        (2, "\\x02"),
        (3, "\\x03"),
        (10, "\\n"),
        (32, " "),
        (34, "\\\""),
        (39, "\\'"),
        (92, "\\\\"),
        (97, "a"),
        (127, "\\x7f"),
        (128, "\\x80"),
        (129, "\\x81"),
        (254, "\\xfe"),
        (255, "\\xff"),
    ];
    let bytes = test_sequence.iter().map(|(b, _)| *b).collect::<Vec<_>>();

    let mut expected = "b\"".to_string();
    expected.push_str(
        &test_sequence
            .iter()
            .map(|(_, e)| *e)
            .collect::<Vec<_>>()
            .join(""),
    );
    expected.push('"');

    let actual = LiteralBytes(&bytes).to_string();
    assert_eq!(expected, actual);
}

#[test]
fn literal_of_no_bytes_is_empty_literal() {
    assert_eq!(LiteralBytes(&[]).to_string(), "b\"\"");
}

#[test]
fn literal_escapes_tab_and_carriage_return() {
    assert_eq!(LiteralBytes(&[9, 13]).to_string(), "b\"\\t\\r\"");
}

#[test]
fn literal_escapes_every_byte_as_the_standard_library_does() {
    for b in 0..=255u8 {
        let mut expected = "b\"".to_string();
        for c in std::ascii::escape_default(b) {
            expected.push(char::from(c));
        }
        expected.push('"');
        assert_eq!(LiteralBytes(&[b]).to_string(), expected);
    }
}

#[test]
fn literal_keeps_printable_bytes() {
    assert_eq!(LiteralBytes(b" ~az09").to_string(), "b\" ~az09\"");
}
