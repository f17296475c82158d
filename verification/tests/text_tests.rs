use task_tracker::text::{decimal_string, is_whitespace, parse_id, trim};

#[test]
fn is_whitespace_knows_the_usual_blanks() {
    for c in [' ', '\t', '\n', '\r', '\u{b}', '\u{c}', '\u{85}', '\u{a0}', '\u{2028}', '\u{3000}'] {
        assert!(is_whitespace(c), "{:?}", c);
    }
    for c in ['a', '0', '_', '\u{0}', '\u{8}', '\u{e}', '\u{1b}', '\u{1f}', '\u{200b}', '\u{180e}', '\u{feff}', '越'] {
        assert!(!is_whitespace(c), "{:?}", c);
    }
}

#[test]
fn is_whitespace_agrees_with_the_standard_library_on_every_character() {
    let mut count: usize = 0;
    for code in 0..=0x10ffffu32 {
        if let Some(c) = char::from_u32(code) {
            assert_eq!(is_whitespace(c), c.is_whitespace(), "U+{:04X}", code);
            if is_whitespace(c) {
                count += 1;
            }
        }
    }
    assert_eq!(count, 25);
}

#[test]
fn trim_removes_surrounding_whitespace() {
    assert_eq!(trim("  hello  "), "hello");
    assert_eq!(trim("hello"), "hello");
    assert_eq!(trim("\t\nhello world\r\n"), "hello world");
    assert_eq!(trim("a"), "a");
    assert_eq!(trim(" a"), "a");
    assert_eq!(trim("a "), "a");
}

#[test]
fn trim_of_blank_text_is_empty() {
    assert_eq!(trim(""), "");
    assert_eq!(trim(" "), "");
    assert_eq!(trim(" \t\r\n "), "");
    assert_eq!(trim("\u{a0}\u{2003}\u{3000}"), "");
}

#[test]
fn trim_keeps_inner_whitespace() {
    assert_eq!(trim("  a  b\tc  "), "a  b\tc");
    assert_eq!(trim("x\ny"), "x\ny");
}

#[test]
fn trim_knows_unicode_whitespace_and_wide_characters() {
    assert_eq!(trim("\u{3000}日本語\u{a0}"), "日本語");
    assert_eq!(trim(" \u{2713} "), "\u{2713}");
    assert_eq!(trim("\u{200b}x"), "\u{200b}x");
    assert_eq!(trim(" é "), "é");
}

#[test]
fn trim_agrees_with_the_standard_library() {
    let samples = [
        "",
        " ",
        "a",
        "  a b  ",
        "\t\ttabbed\t",
        "\n\nlines\n",
        "\r\nwindows\r\n",
        "\u{a0}nbsp\u{a0}",
        "\u{1680}ogham\u{1680}",
        "\u{2028}line sep\u{2029}",
        "\u{85}next line\u{85}",
        "\u{feff}bom\u{feff}",
        "\u{200b}zero width\u{200b}",
        "  ñandú  ",
        " 🦀 ",
        "\u{b}\u{c}vertical\u{c}\u{b}",
        "\u{1c}\u{1f}separators\u{1e}",
    ];
    for sample in samples {
        assert_eq!(trim(sample), sample.trim(), "sample {:?}", sample);
    }
}

#[test]
fn parse_id_reads_decimal_numbers() {
    assert_eq!(parse_id("0"), Some(0));
    assert_eq!(parse_id("1"), Some(1));
    assert_eq!(parse_id("42"), Some(42));
    assert_eq!(parse_id("007"), Some(7));
    assert_eq!(parse_id("1234567890"), Some(1234567890));
}

#[test]
fn parse_id_accepts_one_plus_sign() {
    assert_eq!(parse_id("+7"), Some(7));
    assert_eq!(parse_id("+0"), Some(0));
    assert_eq!(parse_id("++7"), None);
    assert_eq!(parse_id("+"), None);
    assert_eq!(parse_id("7+"), None);
}

#[test]
fn parse_id_rejects_what_is_not_a_number() {
    for text in ["", " ", "abc", "1a", "a1", "-1", "-0", "1.5", "1 2", " 1", "1 ", "1_000", "٣", "１", "0x10"] {
        assert_eq!(parse_id(text), None, "text {:?}", text);
    }
}

#[test]
fn parse_id_knows_the_largest_identifier() {
    let largest = usize::MAX.to_string();
    assert_eq!(parse_id(&largest), Some(usize::MAX));
    let padded = format!("000{}", largest);
    assert_eq!(parse_id(&padded), Some(usize::MAX));
}

#[test]
fn parse_id_rejects_numbers_that_do_not_fit() {
    let largest = usize::MAX.to_string();
    let mut digits: Vec<u8> = largest.clone().into_bytes();
    let last: usize = digits.len() - 1;
    // usize::MAX ends in 5 on 32 and 64 bit machines alike
    assert_eq!(digits[last], b'5');
    digits[last] = b'6';
    let one_more = String::from_utf8(digits).unwrap();
    assert_eq!(parse_id(&one_more), None);
    assert_eq!(parse_id(&format!("{}0", largest)), None);
    assert_eq!(parse_id("99999999999999999999999999999999999999999"), None);
    assert_eq!(parse_id("99999999999999999999999999999999999999999x"), None);
}

#[test]
fn parse_id_agrees_with_the_standard_library() {
    let largest = usize::MAX.to_string();
    let samples = [
        "", "0", "5", "+5", "-5", "05", "5 ", " 5", "5x", "x", "+", "-", "+-5", "18446744073709551615",
        "18446744073709551616", "4294967295", "4294967296", "00000000000000000000000001", "１２",
        "1e3", "\u{0661}", "9\u{0301}", largest.as_str(),
    ];
    for sample in samples {
        assert_eq!(parse_id(sample), sample.parse::<usize>().ok(), "sample {:?}", sample);
    }
}

#[test]
fn decimal_string_writes_numbers() {
    assert_eq!(decimal_string(0), "0");
    assert_eq!(decimal_string(7), "7");
    assert_eq!(decimal_string(10), "10");
    assert_eq!(decimal_string(42), "42");
    assert_eq!(decimal_string(1000), "1000");
    assert_eq!(decimal_string(9876543210 % usize::MAX), (9876543210 % usize::MAX).to_string());
    assert_eq!(decimal_string(usize::MAX), usize::MAX.to_string());
}

#[test]
fn decimal_string_reads_back() {
    for n in [0usize, 1, 9, 10, 11, 99, 100, 101, 65535, 65536, usize::MAX - 1, usize::MAX] {
        assert_eq!(parse_id(&decimal_string(n)), Some(n));
        assert_eq!(decimal_string(n), n.to_string());
    }
}
