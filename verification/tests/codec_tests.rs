use eve_multibox::codec::{
    canonical_id, format_decimal, format_decimal_i64, format_hex_address, format_hex_padded,
    parse_i32, parse_u32,
};

#[test]
fn hex_with_prefix_parses_base_16() {
    assert_eq!(canonical_id("0x06e00008"), 0x06e00008);
    assert_eq!(canonical_id("0x55ade765da10"), 0x55ade765da10);
    assert_eq!(canonical_id("0xFF"), 255);
}

#[test]
fn all_digit_parses_base_10() {
    assert_eq!(canonical_id("12345"), 12345);
    assert_eq!(canonical_id("0"), 0);
    assert_eq!(canonical_id("18446744073709551615"), u64::MAX);
}

#[test]
fn bare_hex_parses_base_16() {
    assert_eq!(canonical_id("1a3f"), 0x1a3f);
    assert_eq!(canonical_id("deadBEEF"), 0xdeadbeef);
}

#[test]
fn malformed_strings_map_to_zero() {
    assert_eq!(canonical_id(""), 0);
    assert_eq!(canonical_id("0x"), 0);
    assert_eq!(canonical_id("0xzz"), 0);
    assert_eq!(canonical_id("window-7"), 0);
    assert_eq!(canonical_id("12 34"), 0);
    assert_eq!(canonical_id("-5"), 0);
}

#[test]
fn out_of_range_values_map_to_zero() {
    assert_eq!(canonical_id("18446744073709551616"), 0);
    assert_eq!(canonical_id("0x10000000000000000"), 0);
}

#[test]
fn padded_hex_round_trip() {
    let s = format_hex_padded(0x06e00008);
    assert_eq!(s, "0x06e00008");
    assert_eq!(canonical_id(&s), 0x06e00008);
    assert_eq!(format_hex_padded(1), "0x00000001");
    assert_eq!(format_hex_padded(0), "0x00000000");
    let wide = format_hex_padded(0x55ade765da10);
    assert_eq!(wide, "0x55ade765da10");
    assert_eq!(canonical_id(&wide), 0x55ade765da10);
}

#[test]
fn address_hex_round_trip() {
    let s = format_hex_address(0x55ade765da10);
    assert_eq!(s, "0x55ade765da10");
    assert_eq!(canonical_id(&s), 0x55ade765da10);
    assert_eq!(format_hex_address(0), "0x0");
    assert_eq!(canonical_id(&format_hex_address(u64::MAX)), u64::MAX);
}

#[test]
fn decimal_round_trip() {
    let s = format_decimal(9007199254740993);
    assert_eq!(s, "9007199254740993");
    assert_eq!(canonical_id(&s), 9007199254740993);
    assert_eq!(format_decimal(0), "0");
}

#[test]
fn signed_decimal_rendering() {
    assert_eq!(format_decimal_i64(-1080), "-1080");
    assert_eq!(format_decimal_i64(0), "0");
    assert_eq!(format_decimal_i64(2560), "2560");
    assert_eq!(format_decimal_i64(i64::MIN), "-9223372036854775808");
}

#[test]
fn coordinate_parsers() {
    assert_eq!(parse_i32("-1080"), Some(-1080));
    assert_eq!(parse_i32("0"), Some(0));
    assert_eq!(parse_i32("2147483647"), Some(i32::MAX));
    assert_eq!(parse_i32("-2147483648"), Some(i32::MIN));
    assert_eq!(parse_i32("2147483648"), None);
    assert_eq!(parse_i32("-"), None);
    assert_eq!(parse_i32("12a"), None);
    assert_eq!(parse_u32("2560"), Some(2560));
    assert_eq!(parse_u32("4294967295"), Some(u32::MAX));
    assert_eq!(parse_u32("4294967296"), None);
    assert_eq!(parse_u32("-1"), None);
    assert_eq!(parse_u32(""), None);
}
