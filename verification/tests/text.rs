use komari_monitor::decimal::{
    append_decimal, append_signed_decimal, digit_text, parse_digits_span, parse_i64_span,
    parse_unsigned_span,
};
use komari_monitor::text::{
    chars_of, find_char, is_whitespace, span_is, spells_word, trim_span,
};

fn chars(s: &str) -> Vec<char> {
    s.chars().collect()
}

#[test]
fn chars_of_gives_the_characters() {
    assert_eq!(chars_of(""), Vec::<char>::new());
    assert_eq!(chars_of("a=b"), vec!['a', '=', 'b']);
    assert_eq!(chars_of("é𝄞\n"), vec!['é', '𝄞', '\n']);
}

#[test]
fn white_space_is_what_std_calls_white_space() {
    for code in 0..=0x10FFFFu32 {
        if let Some(c) = char::from_u32(code) {
            assert_eq!(is_whitespace(c), c.is_whitespace(), "U+{:04X}", code);
        }
    }
}

#[test]
fn trim_span_agrees_with_str_trim() {
    let samples = [
        "", " ", "a", " a", "a ", "  a b  ", "\t\r\n x=y \u{a0}\u{3000}", "\u{2003}", "no space",
        " \u{feff}x ", "\n\n", "a\u{85}",
    ];
    for sample in samples {
        let all = chars(sample);
        let (from, to) = trim_span(&all, 0, all.len());
        let kept: String = all[from..to].iter().collect();
        assert_eq!(kept, sample.trim(), "{:?}", sample);
    }
    // Only the span is looked at.
    let all = chars("ab  cd  ef");
    assert_eq!(trim_span(&all, 2, 8), (4, 6));
    assert_eq!(trim_span(&all, 2, 4), (4, 4));
    assert_eq!(trim_span(&all, 3, 3), (3, 3));
}

#[test]
fn find_char_gives_the_first_or_the_end() {
    let all = chars("a=b=c");
    assert_eq!(find_char(&all, 0, 5, '='), 1);
    assert_eq!(find_char(&all, 2, 5, '='), 3);
    assert_eq!(find_char(&all, 4, 5, '='), 5);
    assert_eq!(find_char(&all, 0, 1, '='), 1);
    assert_eq!(find_char(&all, 0, 0, '='), 0);
    assert_eq!(find_char(&all, 0, 5, 'x'), 5);
}

#[test]
fn span_is_compares_exactly() {
    let all = chars("boot_id=abc");
    assert!(span_is(&all, 0, 7, "boot_id"));
    assert!(!span_is(&all, 0, 6, "boot_id"));
    assert!(!span_is(&all, 0, 8, "boot_id"));
    assert!(!span_is(&all, 0, 7, "boot_iD"));
    assert!(span_is(&all, 8, 11, "abc"));
    assert!(span_is(&all, 3, 3, ""));
}

#[test]
fn spells_word_ignores_ascii_case_only() {
    assert!(spells_word(&chars("mon"), "mon"));
    assert!(spells_word(&chars("MoN"), "mon"));
    assert!(spells_word(&chars("7"), "7"));
    assert!(!spells_word(&chars("mon "), "mon"));
    assert!(!spells_word(&chars("mo"), "mon"));
    assert!(!spells_word(&chars("m0n"), "mon"));
    // 'W' + 0x20 is 'w', but '7' is no capital of 'W'.
    assert!(!spells_word(&chars("7ed"), "wed"));
    // U+212A (Kelvin sign) is no ASCII capital.
    assert!(!spells_word(&chars("\u{212a}"), "k"));
    assert!(!spells_word(&chars("["), "{"));
    assert!(!spells_word(&chars("@"), "`"));
}

#[test]
fn unsigned_numbers_agree_with_std() {
    let samples = [
        "", "0", "7", "007", "+7", "+", "-7", "-0", "++7", "+-7", "255", "256", "4294967295",
        "4294967296", "18446744073709551615", "18446744073709551616", "99999999999999999999",
        "000000000000000000000000000001", "1 ", " 1", "1_000", "1e3", "0x10", "１２", "٣", "1.0",
    ];
    for sample in samples {
        let all = chars(sample);
        assert_eq!(parse_unsigned_span(&all, 0, all.len(), u64::MAX), sample.parse::<u64>().ok());
        assert_eq!(
            parse_unsigned_span(&all, 0, all.len(), 0xffff_ffff),
            sample.parse::<u32>().ok().map(u64::from)
        );
        assert_eq!(
            parse_unsigned_span(&all, 0, all.len(), 255),
            sample.parse::<u8>().ok().map(u64::from)
        );
    }
    let all = chars("12345");
    assert_eq!(parse_digits_span(&all, 1, 4, 1000), Some(234));
    assert_eq!(parse_digits_span(&all, 1, 4, 233), None);
    assert_eq!(parse_digits_span(&all, 1, 4, 0), None);
    assert_eq!(parse_digits_span(&all, 2, 2, 1000), None);
    assert_eq!(parse_digits_span(&chars("+5"), 0, 2, 1000), None);
    assert_eq!(parse_digits_span(&chars("000"), 0, 3, 0), Some(0));
}

#[test]
fn signed_numbers_agree_with_std() {
    let samples = [
        "", "0", "-0", "+0", "-", "+", "--1", "-+1", "+-1", "42", "-42", "+42", "-042",
        "9223372036854775807", "9223372036854775808", "-9223372036854775808",
        "-9223372036854775809", "-9223372036854775807", "-9223372036854775806",
        "-99999999999999999999", " -1", "-1 ", "- 1", "−1",
    ];
    for sample in samples {
        let all = chars(sample);
        assert_eq!(parse_i64_span(&all, 0, all.len()), sample.parse::<i64>().ok(), "{:?}", sample);
    }
}

#[test]
fn numbers_are_written_as_std_writes_them() {
    for n in [0u64, 1, 9, 10, 11, 99, 100, 101, 4_294_967_295, 1 << 63, u64::MAX - 1, u64::MAX] {
        let mut out = String::from("n=");
        append_decimal(&mut out, n);
        assert_eq!(out, format!("n={}", n));
    }
    for n in [0i64, 1, -1, 10, -10, 1_707_955_200, i64::MAX, i64::MIN, i64::MIN + 1, i64::MIN + 2] {
        let mut out = String::from("n=");
        append_signed_decimal(&mut out, n);
        assert_eq!(out, format!("n={}", n));
    }
    for d in 0..10u64 {
        assert_eq!(digit_text(d), format!("{}", d));
    }
}
