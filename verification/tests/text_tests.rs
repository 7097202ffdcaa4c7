use subtitle_export::text::chars_of;
use subtitle_export::text::char_is_whitespace;
use subtitle_export::text::div_round_half_even;
use subtitle_export::text::div_round_half_up;
use subtitle_export::text::find_text;
use subtitle_export::text::find_whitespace;
use subtitle_export::text::has_suffix;
use subtitle_export::text::integer_to_string;
use subtitle_export::text::join_strings;
use subtitle_export::text::millis_to_string;
use subtitle_export::text::natural_to_string;
use subtitle_export::text::padded_to_string;
use subtitle_export::text::parse_i64;
use subtitle_export::text::same_text;
use subtitle_export::text::seconds_to_string;
use subtitle_export::text::shortest_to_string;
use subtitle_export::text::string_of;

fn chars(s: &str) -> Vec<char> {
    s.chars().collect()
}

#[test]
fn integers_are_written_in_decimal() {
    assert_eq!(natural_to_string(0), "0");
    assert_eq!(natural_to_string(1234567890), "1234567890");
    assert_eq!(natural_to_string(u128::MAX), u128::MAX.to_string());
    assert_eq!(integer_to_string(-42), "-42");
    assert_eq!(integer_to_string(i64::MIN), i64::MIN.to_string());
    assert_eq!(integer_to_string(i64::MAX), i64::MAX.to_string());
    assert_eq!(padded_to_string(42, 6), "000042");
    assert_eq!(padded_to_string(1234567, 3), "567");
    assert_eq!(padded_to_string(5, 0), "");
}

#[test]
fn rounding_of_quotients() {
    assert_eq!(div_round_half_even(5, 2), 2);
    assert_eq!(div_round_half_even(7, 2), 4);
    assert_eq!(div_round_half_even(9, 4), 2);
    assert_eq!(div_round_half_even(11, 4), 3);
    assert_eq!(div_round_half_up(5, 2), 3);
    assert_eq!(div_round_half_up(7, 2), 4);
    assert_eq!(div_round_half_up(9, 4), 2);
}

#[test]
fn seconds_are_written_with_six_decimals() {
    assert_eq!(seconds_to_string(1, 30), format!("{:.6}", 1.0f64 / 30.0));
    assert_eq!(seconds_to_string(15_000, 30_000), "0.500000");
    assert_eq!(seconds_to_string(2, 3), "0.666667");
    assert_eq!(seconds_to_string(-1, 3), "-0.333333");
    assert_eq!(seconds_to_string(1, 128), "0.007812"); // tie goes to even, as 0.0078125 does
    assert_eq!(seconds_to_string(1, 128), format!("{:.6}", 0.0078125f64));
    assert_eq!(seconds_to_string(3, 128), format!("{:.6}", 3.0f64 / 128.0));
    assert_eq!(seconds_to_string(-1, 4_000_000), "-0.000000");
    assert_eq!(seconds_to_string(0, 7), "0.000000");
    assert_eq!(seconds_to_string(123_456_789, 1000), "123456.789000");
}

#[test]
fn thousandths_fixed_and_shortest() {
    assert_eq!(millis_to_string(2000), "2.000");
    assert_eq!(millis_to_string(-1), "-0.001");
    assert_eq!(millis_to_string(12_345), format!("{:.3}", 12.345f64));
    assert_eq!(shortest_to_string(2000), "2");
    assert_eq!(shortest_to_string(2500), format!("{}", 2.5f64));
    assert_eq!(shortest_to_string(2050), "2.05");
    assert_eq!(shortest_to_string(125), format!("{}", 0.125f64));
    assert_eq!(shortest_to_string(-500), format!("{}", -0.5f64));
    assert_eq!(shortest_to_string(0), format!("{}", 0.0f64));
    assert_eq!(shortest_to_string(30_000), format!("{}", 30.0f64));
}

#[test]
fn searching_in_texts() {
    let hay = chars("out_time_ms=5 time=7");
    assert_eq!(find_text(&hay, &chars("time=")), Some(14));
    assert_eq!(find_text(&hay, &chars("time")), Some(4));
    assert_eq!(find_text(&hay, &chars("")), Some(0));
    assert_eq!(find_text(&hay, &chars("nope")), None);
    assert_eq!(find_text(&chars(""), &chars("")), Some(0));
    assert_eq!(find_text(&chars("ab"), &chars("abc")), None);
    assert_eq!(find_whitespace(&hay, 0), Some(13));
    assert_eq!(find_whitespace(&hay, 14), None);
    assert!(has_suffix(&chars("a.png"), &chars(".png")));
    assert!(!has_suffix(&chars("png"), &chars(".png")));
    assert!(has_suffix(&chars("x"), &chars("")));
}

#[test]
fn whitespace_is_what_the_standard_library_says() {
    for code in 0u32..0x3100 {
        if let Some(c) = char::from_u32(code) {
            assert_eq!(char_is_whitespace(c), c.is_whitespace(), "U+{:04X}", code);
        }
    }
}

#[test]
fn integers_are_parsed_like_the_standard_library() {
    for text in [
        "0", "-0", "+0", "42", "-42", "+42", "007", "", "-", "+", "4 2", "42x", "--4",
        "9223372036854775807", "9223372036854775808", "-9223372036854775808",
        "-9223372036854775809", "99999999999999999999999", "00000000000000000000000001",
    ] {
        let v = chars(text);
        assert_eq!(parse_i64(&v, 0, v.len()), text.parse::<i64>().ok(), "{:?}", text);
    }
    let v = chars("ab-17cd");
    assert_eq!(parse_i64(&v, 2, 5), Some(-17));
}

#[test]
fn strings_and_characters() {
    assert_eq!(chars_of("héllo"), chars("héllo"));
    assert_eq!(string_of(&chars("héllo"), 1, 3), "él");
    assert_eq!(join_strings(&vec!["a".to_string(), "b".to_string(), "c".to_string()], ", "), "a, b, c");
    assert_eq!(join_strings(&vec!["a".to_string()], ";"), "a");
    assert_eq!(join_strings(&vec![], ";"), "");
    assert!(same_text("abc", "abc"));
    assert!(!same_text("abc", "abd"));
}
