use kubecove::text::{
    chars_of, decimal_text, parse_i32, parse_i64, strip_text_suffix, text_eq, text_is_before,
    text_opt_is, trim_text,
};

const SAMPLES: [&str; 14] = [
    "",
    "a",
    "b",
    "ab",
    "aB",
    "aa",
    "é",
    "z",
    "日本",
    "日",
    "\u{10ffff}",
    "\u{ffff}",
    " a",
    "a\u{0}",
];

#[test]
fn equality_and_order_are_those_of_strings() {
    for left in SAMPLES {
        for right in SAMPLES {
            assert_eq!(text_eq(left, right), left == right, "{left:?} {right:?}");
            assert_eq!(
                text_is_before(left, right),
                left < right,
                "{left:?} {right:?}"
            );
            assert_eq!(
                text_opt_is(&Some(left.to_string()), right),
                left == right,
                "{left:?} {right:?}"
            );
        }
        assert!(!text_opt_is(&None, left));
        assert_eq!(chars_of(left), left.chars().collect::<Vec<char>>());
    }
}

#[test]
fn trimming_is_that_of_strings() {
    for text in [
        "",
        " ",
        "\u{3000}\t",
        "a",
        " a",
        "a ",
        "\u{a0} a b\u{2028}\n",
        "\u{200b}a",
        "\u{85}é\u{1680}",
    ] {
        assert_eq!(trim_text(text), text.trim(), "{text:?}");
    }
    for code in 0..=0x10ffff_u32 {
        let Some(character) = char::from_u32(code) else {
            continue;
        };
        let text = format!("{character}x{character}");
        assert_eq!(trim_text(&text), text.trim(), "{code:x}");
    }
}

#[test]
fn suffixes_are_those_of_strings() {
    for text in ["", "i", "Mi", "64Mi", "64M", "éMi", "Mié", "MiMi"] {
        for suffix in ["", "i", "Mi", "M", "é", "64Mi64Mi"] {
            assert_eq!(
                strip_text_suffix(text, suffix),
                text.strip_suffix(suffix),
                "{text:?} {suffix:?}"
            );
        }
    }
}

#[test]
fn integers_are_read_as_the_standard_library_reads_them() {
    for text in [
        "",
        "0",
        "00",
        "+0",
        "-0",
        "-",
        "+",
        "+-1",
        "1 ",
        "12a",
        "१",
        "007",
        "2147483647",
        "2147483648",
        "-2147483648",
        "-2147483649",
        "9223372036854775807",
        "9223372036854775808",
        "-9223372036854775808",
        "-9223372036854775809",
        "18446744073709551615",
        "18446744073709551616",
        "00000000000000000000000000000000000001",
        "99999999999999999999999999",
    ] {
        assert_eq!(parse_i64(text), text.parse::<i64>().ok(), "{text:?}");
        assert_eq!(parse_i32(text), text.parse::<i32>().ok(), "{text:?}");
    }
}

#[test]
fn numbers_are_written_in_base_ten() {
    for number in [0, 1, 9, 10, 11, 99, 100, 1_000_000_007, u64::MAX] {
        assert_eq!(decimal_text(number), number.to_string());
    }
}
