use story_engine::text::{parse_i32_or, parse_usize_or, same_text, trim};

#[test]
fn trim_removes_surrounding_whitespace() {
    assert_eq!(trim("  abc \t\n"), "abc");
    assert_eq!(trim("abc"), "abc");
    assert_eq!(trim("\r\n x"), "x");
    assert_eq!(trim("x \r\n"), "x");
}

#[test]
fn trim_keeps_inner_whitespace() {
    assert_eq!(trim("  Go  right "), "Go  right");
    assert_eq!(trim("a\tb"), "a\tb");
}

#[test]
fn trim_of_nothing_but_whitespace_is_empty() {
    assert_eq!(trim(""), "");
    assert_eq!(trim("   "), "");
    assert_eq!(trim("\t\n\r "), "");
}

#[test]
fn trim_knows_whitespace_beyond_ascii() {
    assert_eq!(trim("\u{a0}x\u{3000}"), "x");
    assert_eq!(trim("\u{2003}\u{e9}t\u{e9}\u{2003}"), "\u{e9}t\u{e9}");
}

#[test]
fn trim_agrees_with_std() {
    let samples = vec![
        "", " ", "a", " a", "a ", " a b ", "\u{a0}", "\u{85}q\u{1680}", "\u{200b}z\u{200b}",
        "  SITUACION ", "\n-10\n", "\u{feff}x",
    ];
    for sample in samples {
        assert_eq!(trim(sample), sample.trim());
    }
}

#[test]
fn same_text_compares_characters() {
    assert!(same_text("", ""));
    assert!(same_text("OPCION", "OPCION"));
    assert!(!same_text("OPCION", "OPCIO"));
    assert!(!same_text("OPCION", "OPCIOn"));
    assert!(!same_text("opcion", "OPCION"));
    assert!(same_text("\u{e9}", "\u{e9}"));
    assert!(!same_text("\u{e9}", "e"));
}

#[test]
fn signed_numerals_are_read_exactly() {
    assert_eq!(parse_i32_or("0", 7), 0);
    assert_eq!(parse_i32_or("12", 7), 12);
    assert_eq!(parse_i32_or("-150", 7), -150);
    assert_eq!(parse_i32_or("+7", 0), 7);
    assert_eq!(parse_i32_or("-0", 7), 0);
    assert_eq!(parse_i32_or("0005", 7), 5);
    assert_eq!(parse_i32_or("00000000000000000000000000042", 7), 42);
}

#[test]
fn signed_numerals_at_the_limits() {
    assert_eq!(parse_i32_or("2147483647", 0), i32::MAX);
    assert_eq!(parse_i32_or("+2147483647", 0), i32::MAX);
    assert_eq!(parse_i32_or("-2147483648", 0), i32::MIN);
    assert_eq!(parse_i32_or("2147483648", 5), 5);
    assert_eq!(parse_i32_or("-2147483649", 5), 5);
    assert_eq!(parse_i32_or("99999999999999999999999999", 5), 5);
    assert_eq!(parse_i32_or("-99999999999999999999999999", 5), 5);
}

#[test]
fn what_is_no_signed_numeral_gives_the_default() {
    assert_eq!(parse_i32_or("", 9), 9);
    assert_eq!(parse_i32_or("abc", 9), 9);
    assert_eq!(parse_i32_or("-", 9), 9);
    assert_eq!(parse_i32_or("+", 9), 9);
    assert_eq!(parse_i32_or("+-5", 9), 9);
    assert_eq!(parse_i32_or("--5", 9), 9);
    assert_eq!(parse_i32_or("5-", 9), 9);
    assert_eq!(parse_i32_or(" 5", 9), 9);
    assert_eq!(parse_i32_or("5 ", 9), 9);
    assert_eq!(parse_i32_or("1_000", 9), 9);
    assert_eq!(parse_i32_or("1.5", 9), 9);
    assert_eq!(parse_i32_or("0x10", 9), 9);
    assert_eq!(parse_i32_or("\u{663}", 9), 9);
    assert_eq!(parse_i32_or("12\u{e9}", 9), 9);
}

#[test]
fn signed_numerals_agree_with_std() {
    let samples = vec![
        "", "0", "-0", "+0", "1", "-1", "+1", "10", "-10", "2147483647", "2147483648",
        "-2147483648", "-2147483649", "+", "-", "++1", "1+", "a", "1a", "a1", " 1", "1 ", "007",
        "-007", "4294967296", "-4294967296", "9223372036854775808", "\u{ff11}",
    ];
    for sample in samples {
        assert_eq!(parse_i32_or(sample, 77), sample.parse::<i32>().unwrap_or(77));
    }
}

#[test]
fn unsigned_numerals_are_read_exactly() {
    assert_eq!(parse_usize_or("0", 99), 0);
    assert_eq!(parse_usize_or("3", 99), 3);
    assert_eq!(parse_usize_or("+3", 99), 3);
    assert_eq!(parse_usize_or("100", 99), 100);
    assert_eq!(parse_usize_or("000", 99), 0);
}

#[test]
fn unsigned_numerals_at_the_limits() {
    let max = format!("{}", usize::MAX);
    assert_eq!(parse_usize_or(&max, 99), usize::MAX);
    let beyond = format!("{}0", usize::MAX);
    assert_eq!(parse_usize_or(&beyond, 99), 99);
    assert_eq!(parse_usize_or("340282366920938463463374607431768211456", 99), 99);
}

#[test]
fn what_is_no_unsigned_numeral_gives_the_default() {
    assert_eq!(parse_usize_or("", 99), 99);
    assert_eq!(parse_usize_or("-1", 99), 99);
    assert_eq!(parse_usize_or("-0", 99), 99);
    assert_eq!(parse_usize_or("+", 99), 99);
    assert_eq!(parse_usize_or("two", 99), 99);
    assert_eq!(parse_usize_or("2 ", 99), 99);
    assert_eq!(parse_usize_or("2x", 99), 99);
}

#[test]
fn unsigned_numerals_agree_with_std() {
    let samples = vec![
        "", "0", "-0", "+0", "1", "-1", "+1", "99", "18446744073709551615",
        "18446744073709551616", "4294967295", "4294967296", "+", "-", "1+", "x", " 1", "1\n",
    ];
    for sample in samples {
        assert_eq!(parse_usize_or(sample, 99), sample.parse::<usize>().unwrap_or(99));
    }
}
