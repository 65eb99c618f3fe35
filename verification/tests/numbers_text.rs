use vaporwall::numbers::{channels_split_cleanly, hex_to_int, hex_to_rgb};
use vaporwall::settings::{format_bool, parse_bool, parse_u32};
use vaporwall::text::{str_equal, u32_to_decimal};

#[test]
fn hex_to_int_reads_colour_codes() {
    assert_eq!(hex_to_int("#ff8800"), 0xff8800);
    assert_eq!(hex_to_int("ff"), 255);
    assert_eq!(hex_to_int("##12"), 0x12);
    assert_eq!(hex_to_int("#FFffFF"), 0xffffff);
    assert_eq!(hex_to_int("#ffffffff"), u32::MAX);
}

#[test]
fn hex_to_int_sign_rules() {
    assert_eq!(hex_to_int("#+f"), 15);
    assert_eq!(hex_to_int("#+"), 0);
    assert_eq!(hex_to_int("#-1"), 0);
    assert_eq!(hex_to_int("#++1"), 0);
}

#[test]
fn hex_to_int_gives_zero_on_failure() {
    assert_eq!(hex_to_int(""), 0);
    assert_eq!(hex_to_int("#"), 0);
    assert_eq!(hex_to_int("#zz"), 0);
    assert_eq!(hex_to_int("#100000000"), 0);
    assert_eq!(hex_to_int("# ff"), 0);
    assert_eq!(hex_to_int("#é"), 0);
}

#[test]
fn hex_to_rgb_reads_pairs() {
    assert_eq!(hex_to_rgb("#ff8000"), [255, 128, 0]);
    assert_eq!(hex_to_rgb("##123456"), [0x12, 0x34, 0x56]);
    assert_eq!(hex_to_rgb("1a2B3c"), [0x1a, 0x2b, 0x3c]);
    assert_eq!(hex_to_rgb("#+f+f+f"), [15, 15, 15]);
}

#[test]
fn hex_to_rgb_bad_pairs_and_lengths() {
    assert_eq!(hex_to_rgb("#gg8000"), [0, 128, 0]);
    assert_eq!(hex_to_rgb("#-10000"), [0, 0, 0]);
    assert_eq!(hex_to_rgb("#fff"), [0, 0, 0]);
    assert_eq!(hex_to_rgb("#fffffff"), [0, 0, 0]);
    assert_eq!(hex_to_rgb(""), [0, 0, 0]);
}

#[test]
fn hex_to_rgb_multibyte_pairs() {
    // "éé00": each é is two bytes, so the cuts fall between characters
    assert!(channels_split_cleanly("#éé00"));
    assert_eq!(hex_to_rgb("#éé00"), [0, 0, 0]);
    // "aébcd": the cut after the second byte falls inside é
    assert!(!channels_split_cleanly("aébcd"));
    assert!(channels_split_cleanly("#abc"));
}

#[test]
fn int_packs_rgb_example() {
    let code = "#4a7b2c";
    let rgb = hex_to_rgb(code);
    assert_eq!(
        hex_to_int(code),
        rgb[0] as u32 * 65536 + rgb[1] as u32 * 256 + rgb[2] as u32
    );
}

#[test]
fn parse_u32_as_str_parse() {
    assert_eq!(parse_u32("42"), Some(42));
    assert_eq!(parse_u32("+7"), Some(7));
    assert_eq!(parse_u32("007"), Some(7));
    assert_eq!(parse_u32("4294967295"), Some(u32::MAX));
    assert_eq!(parse_u32("4294967296"), None);
    assert_eq!(parse_u32("-1"), None);
    assert_eq!(parse_u32(""), None);
    assert_eq!(parse_u32("+"), None);
    assert_eq!(parse_u32(" 1"), None);
    assert_eq!(parse_u32("1a"), None);
    for s in ["0", "12", "+3", "99999999999", "x"] {
        assert_eq!(parse_u32(s), s.parse::<u32>().ok());
    }
}

#[test]
fn parse_bool_as_str_parse() {
    assert_eq!(parse_bool("true"), Some(true));
    assert_eq!(parse_bool("false"), Some(false));
    assert_eq!(parse_bool("True"), None);
    assert_eq!(parse_bool("1"), None);
    assert_eq!(parse_bool(" true"), None);
    assert_eq!(format_bool(true), "true");
    assert_eq!(format_bool(false), "false");
}

#[test]
fn decimal_formatting() {
    assert_eq!(u32_to_decimal(0), "0");
    assert_eq!(u32_to_decimal(7), "7");
    assert_eq!(u32_to_decimal(30), "30");
    assert_eq!(u32_to_decimal(u32::MAX), "4294967295");
    for n in [1u32, 10, 99, 100, 12345, 1710618] {
        assert_eq!(u32_to_decimal(n), n.to_string());
        assert_eq!(parse_u32(&u32_to_decimal(n)), Some(n));
    }
}

#[test]
fn string_equality() {
    assert!(str_equal("span", "span"));
    assert!(!str_equal("span", "spam"));
    assert!(!str_equal("span", "spa"));
    assert!(str_equal("", ""));
    assert!(str_equal("é", "é"));
}
