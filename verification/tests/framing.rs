//! Hex framing and text conversion edges.

use abi_coder::text::{chars_of, format_dec, hex_encode, remove_bytes4, remove_hex_prefix};
use abi_coder::U256;

#[test]
fn strip_prefix_of_empty_string_is_empty() {
    assert_eq!(remove_hex_prefix(""), "");
}

#[test]
fn strip_prefix_handles_short_and_unprefixed_strings() {
    assert_eq!(remove_hex_prefix("0"), "0");
    assert_eq!(remove_hex_prefix("0x"), "");
    assert_eq!(remove_hex_prefix("0x01"), "01");
    assert_eq!(remove_hex_prefix("0X01"), "01");
    assert_eq!(remove_hex_prefix("01"), "01");
    assert_eq!(remove_hex_prefix("x0"), "x0");
}

#[test]
fn selector_strip_needs_eight_characters() {
    assert_eq!(remove_bytes4("0x0102"), None);
    assert_eq!(remove_bytes4("0102030"), None);
    assert_eq!(remove_bytes4("01020304"), Some(""));
    assert_eq!(remove_bytes4("0xa9059cbbff"), Some("ff"));
}

#[test]
fn hex_encoding_is_lowercase_two_digits_per_byte() {
    let bytes: Vec<u8> = vec![0x00, 0x0f, 0xab, 0xff];
    let chars = hex_encode(&bytes);
    let text: String = chars.into_iter().collect();
    assert_eq!(text, "000fabff");
}

#[test]
fn chars_of_reads_every_character() {
    assert_eq!(chars_of("abc"), vec!['a', 'b', 'c']);
    assert_eq!(chars_of(""), Vec::<char>::new());
}

#[test]
fn decimal_formatting_has_exact_digits() {
    let cases: Vec<(U256, &str)> = vec![
        (U256 { w0: 0, w1: 0, w2: 0, w3: 0 }, "0"),
        (U256 { w0: 7, w1: 0, w2: 0, w3: 0 }, "7"),
        (U256 { w0: 1000, w1: 0, w2: 0, w3: 0 }, "1000"),
        (
            U256 { w0: u64::MAX, w1: 0, w2: 0, w3: 0 },
            "18446744073709551615",
        ),
        (
            U256 { w0: 0, w1: 1, w2: 0, w3: 0 },
            "18446744073709551616",
        ),
    ];
    for (value, expected) in cases {
        let text: String = format_dec(value).into_iter().collect();
        assert_eq!(text, expected);
    }
}
