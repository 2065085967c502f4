use net_traffic_capture::literal_bytes::push_escaped_byte;
use net_traffic_capture::text::{push_char, push_decimal, push_str};

#[test]
fn numbers_are_written_in_decimal_without_leading_zeros() {
    for n in [0u64, 1, 9, 10, 11, 99, 100, 101, 1000, 65535, 4294967295, u64::MAX] {
        let mut out = String::new();
        push_decimal(&mut out, n);
        assert_eq!(out, n.to_string());
    }
    let mut out = "n=".to_string();
    push_decimal(&mut out, 18446744073709551615);
    assert_eq!(out, "n=18446744073709551615");
}

#[test]
fn pieces_are_appended_behind_what_is_there() {
    let mut out = String::new();
    push_str(&mut out, "");
    assert_eq!(out, "");
    push_str(&mut out, "héllo");
    push_char(&mut out, ' ');
    push_str(&mut out, "wörld");
    push_char(&mut out, '!');
    assert_eq!(out, "héllo wörld!");
}

#[test]
fn escapes_are_appended_behind_what_is_there() {
    let mut out = "x".to_string();
    push_escaped_byte(&mut out, b'\n');
    push_escaped_byte(&mut out, 0x1b);
    push_escaped_byte(&mut out, b'q');
    push_escaped_byte(&mut out, 0xab);
    assert_eq!(out, "x\\n\\x1bq\\xab");
}
