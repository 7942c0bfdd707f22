//! The bounded-integer parser: in-range values pass through, zero is
//! clamped up to the minimum, and every other input silently falls back to
//! the default. The silent fallback is deliberate: an input field should
//! never surface a parse error, it just keeps a usable value.

use cell_grid::parser::parse;

#[test]
fn zero_clamps_to_minimum() {
    assert_eq!(parse(b"0", 32, 16), 1);
    assert_eq!(parse(b"0", 128, 32), 1);
}

#[test]
fn in_range_value_passes_through() {
    assert_eq!(parse(b"16", 32, 16), 16);
    assert_eq!(parse(b"1", 32, 16), 1);
    assert_eq!(parse(b"31", 32, 16), 31);
    assert_eq!(parse(b"127", 128, 32), 127);
}

#[test]
fn value_at_bound_falls_back() {
    // 32 is not < 32, so the default is taken.
    assert_eq!(parse(b"32", 32, 16), 16);
    assert_eq!(parse(b"128", 128, 32), 32);
}

#[test]
fn value_above_bound_falls_back() {
    assert_eq!(parse(b"200", 128, 32), 32);
    assert_eq!(parse(b"33", 32, 16), 16);
}

#[test]
fn malformed_input_falls_back() {
    assert_eq!(parse(b"abc", 32, 16), 16);
    assert_eq!(parse(b"", 128, 32), 32);
    assert_eq!(parse(b"1x", 32, 16), 16);
    assert_eq!(parse(b"-3", 32, 16), 16);
    assert_eq!(parse(b" 7", 32, 16), 16);
    assert_eq!(parse(b"1.5", 128, 32), 32);
}

#[test]
fn overflowing_numeral_falls_back() {
    // 256 does not fit the integer type, let alone longer numerals.
    assert_eq!(parse(b"256", 32, 16), 16);
    assert_eq!(parse(b"999999999999999999999", 128, 32), 32);
}

#[test]
fn plus_sign_is_accepted() {
    assert_eq!(parse(b"+16", 32, 16), 16);
    assert_eq!(parse(b"+0", 32, 16), 1);
    // A bare sign spells no integer.
    assert_eq!(parse(b"+", 32, 16), 16);
    // Only one sign is allowed.
    assert_eq!(parse(b"++1", 32, 16), 16);
}

#[test]
fn leading_zeros_are_ordinary_digits() {
    assert_eq!(parse(b"016", 32, 16), 16);
    assert_eq!(parse(b"00", 32, 16), 1);
    assert_eq!(parse(b"0031", 32, 16), 31);
}

#[test]
fn result_always_lies_in_range() {
    // The parser is total: whatever the bytes, the result stays in
    // [1, max) as long as the default does.
    let inputs: Vec<&[u8]> = vec![
        b"",
        b"0",
        b"1",
        b"16",
        b"31",
        b"32",
        b"255",
        b"256",
        b"abc",
        b"+",
        b"-1",
        b"99999999999999999999",
        b"\xff\xfe",
        b"0x10",
    ];
    for raw in inputs {
        let r = parse(raw, 32, 16);
        assert!(1 <= r && r < 32, "parse({:?}) returned {}", raw, r);
        let r = parse(raw, 128, 32);
        assert!(1 <= r && r < 128, "parse({:?}) returned {}", raw, r);
    }
}
