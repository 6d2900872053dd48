use process_uptime::number::{append_decimal, is_decimal_digit, parse_floor, parse_unsigned};
use process_uptime::procfs::read_field_floor;
use process_uptime::text::{chars_of, chars_of_bytes, find_field, is_separator, line_end};
use process_uptime::{FieldFault, PseudoFile, UptimeError};

fn chars(text: &str) -> Vec<char> {
    text.chars().collect()
}

#[test]
fn separators_are_the_white_space_of_unicode() {
    for code in 0..=0x10ffff_u32 {
        if let Some(c) = char::from_u32(code) {
            assert_eq!(is_separator(c), c.is_whitespace(), "{:?}", c);
        }
    }
}

#[test]
fn digits_are_zero_to_nine() {
    for code in 0..=0x10ffff_u32 {
        if let Some(c) = char::from_u32(code) {
            assert_eq!(is_decimal_digit(c), c.is_ascii_digit(), "{:?}", c);
        }
    }
    for (value, c) in "0123456789".chars().enumerate() {
        assert_eq!(parse_unsigned(&[c]), Some(value as u64));
    }
}

#[test]
fn chars_come_in_order() {
    assert_eq!(chars_of(""), chars(""));
    assert_eq!(chars_of("a b\u{e9}\u{1f600}\n"), vec!['a', ' ', 'b', '\u{e9}', '\u{1f600}', '\n']);
    assert_eq!(chars_of_bytes(b""), chars(""));
    assert_eq!(chars_of_bytes(b"42\r\n"), vec!['4', '2', '\r', '\n']);
    assert_eq!(chars_of_bytes(&[0x7f, 0x80, 0xff]), vec!['\u{7f}', '\u{80}', '\u{ff}']);
}

#[test]
fn line_ends_before_its_ending() {
    assert_eq!(line_end(&chars("")), 0);
    assert_eq!(line_end(&chars("42")), 2);
    assert_eq!(line_end(&chars("42\n")), 2);
    assert_eq!(line_end(&chars("42\r\n")), 2);
    assert_eq!(line_end(&chars("42\r")), 3);
    assert_eq!(line_end(&chars("42\n\n")), 3);
    assert_eq!(line_end(&chars("42\r\r\n")), 3);
    assert_eq!(line_end(&chars("\n")), 0);
    assert_eq!(line_end(&chars("\r\n")), 0);
    assert_eq!(line_end(&chars("\r")), 1);
}

#[test]
fn fields_are_found_by_position() {
    let text = chars("  alpha beta\t\tgamma\n");
    assert_eq!(find_field(&text, 0), Some((2, 7)));
    assert_eq!(find_field(&text, 1), Some((8, 12)));
    assert_eq!(find_field(&text, 2), Some((14, 19)));
    assert_eq!(find_field(&text, 3), None);
    assert_eq!(find_field(&text, usize::MAX), None);
}

#[test]
fn fields_of_texts_without_white_space_or_without_words() {
    assert_eq!(find_field(&chars(""), 0), None);
    assert_eq!(find_field(&chars(" \n\t"), 0), None);
    assert_eq!(find_field(&chars("x"), 0), Some((0, 1)));
    assert_eq!(find_field(&chars("x"), 1), None);
    assert_eq!(find_field(&chars("word"), 0), Some((0, 4)));
    assert_eq!(find_field(&chars(" x"), 0), Some((1, 2)));
    assert_eq!(find_field(&chars("x "), 0), Some((0, 1)));
    assert_eq!(find_field(&chars("x "), 1), None);
}

#[test]
fn fields_agree_with_split_whitespace() {
    let texts = [
        "609773.79 19153047.14\n",
        "1234 (bash) S 1 1234 1234 34816\n",
        "a\u{a0}b\u{3000}c\u{2000}d\u{85}e",
        "\u{feff}a b",
        "  leading and trailing  ",
        "one",
        "",
    ];
    for text in texts {
        let all = chars(text);
        let expected: Vec<&str> = text.split_whitespace().collect();
        for (index, word) in expected.iter().enumerate() {
            let (start, end) = find_field(&all, index).unwrap();
            let found: String = all[start..end].iter().collect();
            assert_eq!(&found, word);
        }
        assert_eq!(find_field(&all, expected.len()), None);
    }
}

#[test]
fn unsigned_numbers_are_runs_of_digits() {
    assert_eq!(parse_unsigned(&chars("0")), Some(0));
    assert_eq!(parse_unsigned(&chars("42")), Some(42));
    assert_eq!(parse_unsigned(&chars("0042")), Some(42));
    assert_eq!(parse_unsigned(&chars("18446744073709551615")), Some(u64::MAX));
    assert_eq!(parse_unsigned(&chars("18446744073709551616")), None);
    assert_eq!(parse_unsigned(&chars("18446744073709551620")), None);
    assert_eq!(parse_unsigned(&chars("184467440737095516150")), None);
    assert_eq!(parse_unsigned(&chars("")), None);
    assert_eq!(parse_unsigned(&chars("4.2")), None);
    assert_eq!(parse_unsigned(&chars("+42")), None);
    assert_eq!(parse_unsigned(&chars("42 ")), None);
    assert_eq!(parse_unsigned(&chars("\u{ff14}\u{ff12}")), None);
}

#[test]
fn unsigned_numbers_agree_with_the_standard_parser() {
    for text in ["0", "7", "10", "99", "100", "65535", "4294967296", "18446744073709551615"] {
        assert_eq!(parse_unsigned(&chars(text)), text.parse::<u64>().ok());
    }
}

#[test]
fn decimals_are_rounded_down() {
    assert_eq!(parse_floor(&chars("609773.79")), Some(609773));
    assert_eq!(parse_floor(&chars("19153047.14")), Some(19153047));
    assert_eq!(parse_floor(&chars("0")), Some(0));
    assert_eq!(parse_floor(&chars("0.999999999999999999999")), Some(0));
    assert_eq!(parse_floor(&chars("1.")), Some(1));
    assert_eq!(parse_floor(&chars(".1")), Some(0));
    assert_eq!(parse_floor(&chars("8523")), Some(8523));
    assert_eq!(parse_floor(&chars("18446744073709551615")), Some(u64::MAX));
    assert_eq!(parse_floor(&chars("18446744073709551615.5")), Some(u64::MAX));
    assert_eq!(parse_floor(&chars("18446744073709551616")), Some(u64::MAX));
    assert_eq!(parse_floor(&chars("1844674407370955161500")), Some(u64::MAX));
}

#[test]
fn decimals_need_a_digit_and_at_most_one_point() {
    for text in ["", ".", "..", "1..", "..1", "1.2.3", "1.2.", "a", "1a", "a1", "1.a", "-1", "+1", " 1", "1 "] {
        assert_eq!(parse_floor(&chars(text)), None, "{:?}", text);
    }
}

#[test]
fn numbers_are_written_in_decimal() {
    for n in [0, 1, 9, 10, 11, 99, 100, 101, 1234, 65535, 1_000_000, u32::MAX - 1, u32::MAX] {
        let mut out = String::from("pid ");
        append_decimal(&mut out, n);
        assert_eq!(out, format!("pid {}", n));
    }
}

#[test]
fn written_numbers_read_back() {
    for n in [0, 5, 10, 1234, 4294967295] {
        let mut out = String::new();
        append_decimal(&mut out, n);
        assert_eq!(parse_unsigned(&chars(&out)), Some(n as u64));
        assert_eq!(parse_floor(&chars(&out)), Some(n as u64));
    }
}

#[test]
fn field_numbers_name_their_file() {
    let file = PseudoFile::ProcessStat { pid: 3 };
    assert_eq!(read_field_floor(file, 1, "a 2.5 c"), Ok(2));
    assert_eq!(
        read_field_floor(file, 0, "a 2.5 c"),
        Err(UptimeError::MalformedData { file, index: 0, fault: FieldFault::NotANumber })
    );
    assert_eq!(
        read_field_floor(file, 3, "a 2.5 c"),
        Err(UptimeError::MalformedData { file, index: 3, fault: FieldFault::Missing })
    );
}
