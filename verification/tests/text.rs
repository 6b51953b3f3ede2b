use tatata::comment::{strip_blocks, strip_line_comment};
use tatata::number::{
    parse_digits, parse_signed, parse_unsigned, push_decimal, push_signed, NumberError,
};
use tatata::text::{
    blank, chars_of, find_char, is_whitespace, join_words, push_chars, reads_as, split_on,
    split_words, string_of, to_lower, trimmed,
};

fn cs(text: &str) -> Vec<char> {
    text.chars().collect()
}

fn strings(parts: Vec<&[char]>) -> Vec<String> {
    parts.iter().map(|p| p.iter().collect()).collect()
}

#[test]
fn white_space_characters() {
    for c in [' ', '\t', '\n', '\r', '\u{b}', '\u{c}', '\u{85}', '\u{a0}', '\u{1680}', '\u{2000}',
        '\u{200a}', '\u{2028}', '\u{2029}', '\u{202f}', '\u{205f}', '\u{3000}']
    {
        assert!(is_whitespace(c));
        assert!(c.is_whitespace());
    }
    for c in ['a', '0', '>', ';', '\u{8}', '\u{e}', '\u{200b}', '\u{feff}', '\u{2060}'] {
        assert!(!is_whitespace(c));
        assert!(!c.is_whitespace());
    }
}

#[test]
fn white_space_agrees_with_the_standard_library() {
    for code in 0u32..0x3100 {
        if let Some(c) = char::from_u32(code) {
            assert_eq!(is_whitespace(c), c.is_whitespace());
        }
    }
}

#[test]
fn lower_case_folds_ascii_only() {
    assert_eq!(to_lower('A'), 'a');
    assert_eq!(to_lower('Z'), 'z');
    assert_eq!(to_lower('m'), 'm');
    assert_eq!(to_lower('['), '[');
    assert_eq!(to_lower('@'), '@');
    assert_eq!(to_lower('\u{c9}'), '\u{c9}');
    assert_eq!(to_lower('\u{212a}'), '\u{212a}');
}

#[test]
fn characters_of_a_string() {
    assert_eq!(chars_of(""), Vec::<char>::new());
    assert_eq!(chars_of("a\u{e9}\u{1f600}z"), vec!['a', '\u{e9}', '\u{1f600}', 'z']);
}

#[test]
fn string_of_characters() {
    assert_eq!(string_of(&cs("")), "");
    assert_eq!(string_of(&cs("h\u{e9}llo")), "h\u{e9}llo");
    let mut out = String::from("a");
    push_chars(&mut out, &cs("bc"));
    assert_eq!(out, "abc");
}

#[test]
fn word_against_a_name() {
    assert!(reads_as(&cs("abs"), "abs"));
    assert!(!reads_as(&cs("abs"), "ab"));
    assert!(!reads_as(&cs("ab"), "abs"));
    assert!(!reads_as(&cs("abt"), "abs"));
    assert!(reads_as(&cs(""), ""));
}

#[test]
fn first_character_from_an_index() {
    let s = cs("a>b>c");
    assert_eq!(find_char(&s, '>', 0), 1);
    assert_eq!(find_char(&s, '>', 1), 1);
    assert_eq!(find_char(&s, '>', 2), 3);
    assert_eq!(find_char(&s, '>', 4), 5);
    assert_eq!(find_char(&s, '>', 5), 5);
    assert_eq!(find_char(&s, 'x', 0), 5);
}

#[test]
fn split_keeps_empty_pieces() {
    assert_eq!(strings(split_on(&cs("a;b;;c"), ';')), vec!["a", "b", "", "c"]);
    assert_eq!(strings(split_on(&cs(""), ';')), vec![""]);
    assert_eq!(strings(split_on(&cs(";"), ';')), vec!["", ""]);
    assert_eq!(strings(split_on(&cs("ab"), ';')), vec!["ab"]);
    assert_eq!(strings(split_on(&cs("x\ny\n"), '\n')), vec!["x", "y", ""]);
}

#[test]
fn words_are_runs_without_white_space() {
    assert_eq!(strings(split_words(&cs("  one two\t\tthree \n"))), vec!["one", "two", "three"]);
    assert_eq!(strings(split_words(&cs("one"))), vec!["one"]);
    assert!(split_words(&cs("")).is_empty());
    assert!(split_words(&cs(" \t\u{a0} ")).is_empty());
}

#[test]
fn trimming_both_ends() {
    assert_eq!(string_of(trimmed(&cs("  a b \t"))), "a b");
    assert_eq!(string_of(trimmed(&cs("ab"))), "ab");
    assert_eq!(string_of(trimmed(&cs("   "))), "");
    assert_eq!(string_of(trimmed(&cs(""))), "");
}

#[test]
fn blank_texts() {
    assert!(blank(&cs("")));
    assert!(blank(&cs(" \t\r")));
    assert!(!blank(&cs("  .  ")));
}

#[test]
fn joining_words() {
    let a = cs("one");
    let b = cs("two");
    let c = cs("three");
    assert_eq!(join_words(&[]), "");
    assert_eq!(join_words(&[&a]), "one");
    assert_eq!(join_words(&[&a, &b, &c]), "one two three");
}

#[test]
fn digits_only() {
    assert_eq!(parse_digits(&cs("0"), u64::MAX), Ok(0));
    assert_eq!(parse_digits(&cs("000123"), u64::MAX), Ok(123));
    assert_eq!(parse_digits(&cs("18446744073709551615"), u64::MAX), Ok(u64::MAX));
    assert_eq!(parse_digits(&cs("18446744073709551616"), u64::MAX), Err(NumberError::PosOverflow));
    assert_eq!(parse_digits(&cs("255"), 255), Ok(255));
    assert_eq!(parse_digits(&cs("256"), 255), Err(NumberError::PosOverflow));
    assert_eq!(parse_digits(&cs(""), 255), Err(NumberError::Empty));
    assert_eq!(parse_digits(&cs("+1"), 255), Err(NumberError::InvalidDigit));
    assert_eq!(parse_digits(&cs("1a"), 255), Err(NumberError::InvalidDigit));
    assert_eq!(parse_digits(&cs("\u{661}"), 255), Err(NumberError::InvalidDigit));
}

#[test]
fn number_grown_too_large_before_a_bad_character() {
    assert_eq!(parse_digits(&cs("2560x"), 255), Err(NumberError::PosOverflow));
    assert_eq!(parse_digits(&cs("25x60"), 255), Err(NumberError::InvalidDigit));
    assert_eq!("2560x".parse::<u8>().unwrap_err().kind(), &std::num::IntErrorKind::PosOverflow);
    assert_eq!("25x60".parse::<u8>().unwrap_err().kind(), &std::num::IntErrorKind::InvalidDigit);
}

#[test]
fn unsigned_with_a_plus() {
    assert_eq!(parse_unsigned(&cs("+17"), 255), Ok(17));
    assert_eq!(parse_unsigned(&cs("17"), 255), Ok(17));
    assert_eq!(parse_unsigned(&cs("+"), 255), Err(NumberError::InvalidDigit));
    assert_eq!(parse_unsigned(&cs("++1"), 255), Err(NumberError::InvalidDigit));
    assert_eq!(parse_unsigned(&cs("-1"), 255), Err(NumberError::InvalidDigit));
    assert_eq!(parse_unsigned(&cs("-0"), 255), Err(NumberError::InvalidDigit));
    assert_eq!(parse_unsigned(&cs(""), 255), Err(NumberError::Empty));
    assert_eq!(parse_unsigned(&cs("+256"), 255), Err(NumberError::PosOverflow));
}

#[test]
fn signed_numbers() {
    assert_eq!(parse_signed(&cs("0")), Ok(0));
    assert_eq!(parse_signed(&cs("-0")), Ok(0));
    assert_eq!(parse_signed(&cs("+12")), Ok(12));
    assert_eq!(parse_signed(&cs("-12")), Ok(-12));
    assert_eq!(parse_signed(&cs("2147483647")), Ok(i32::MAX));
    assert_eq!(parse_signed(&cs("-2147483648")), Ok(i32::MIN));
    assert_eq!(parse_signed(&cs("2147483648")), Err(NumberError::PosOverflow));
    assert_eq!(parse_signed(&cs("-2147483649")), Err(NumberError::NegOverflow));
    assert_eq!(parse_signed(&cs("-")), Err(NumberError::InvalidDigit));
    assert_eq!(parse_signed(&cs("+")), Err(NumberError::InvalidDigit));
    assert_eq!(parse_signed(&cs("--1")), Err(NumberError::InvalidDigit));
    assert_eq!(parse_signed(&cs("+-1")), Err(NumberError::InvalidDigit));
    assert_eq!(parse_signed(&cs("1.5")), Err(NumberError::InvalidDigit));
    assert_eq!(parse_signed(&cs("")), Err(NumberError::Empty));
}

#[test]
fn signed_numbers_agree_with_the_standard_library() {
    for text in ["7", "-7", "+7", "007", "-", "+", "", "99999999999", "-99999999999", "1e3", " 1"] {
        let ours = parse_signed(&cs(text)).ok();
        let theirs = text.parse::<i32>().ok();
        assert_eq!(ours, theirs);
    }
}

#[test]
fn writing_numbers() {
    let mut out = String::new();
    push_decimal(&mut out, 0);
    out.push(' ');
    push_decimal(&mut out, 9);
    out.push(' ');
    push_decimal(&mut out, 10);
    out.push(' ');
    push_decimal(&mut out, 1203);
    out.push(' ');
    push_decimal(&mut out, u64::MAX);
    assert_eq!(out, "0 9 10 1203 18446744073709551615");
    let mut out = String::from("x=");
    push_signed(&mut out, -45);
    out.push(',');
    push_signed(&mut out, 45);
    out.push(',');
    push_signed(&mut out, i32::MIN);
    out.push(',');
    push_signed(&mut out, i32::MAX);
    out.push(',');
    push_signed(&mut out, 0);
    assert_eq!(out, "x=-45,45,-2147483648,2147483647,0");
}

#[test]
fn written_numbers_read_back() {
    for n in [0u64, 1, 9, 10, 99, 100, 4096, u64::MAX - 1, u64::MAX] {
        let mut out = String::new();
        push_decimal(&mut out, n);
        assert_eq!(parse_digits(&cs(&out), u64::MAX), Ok(n));
    }
    for x in [0i32, 1, -1, 10, -10, 65535, i32::MIN, i32::MAX] {
        let mut out = String::new();
        push_signed(&mut out, x);
        assert_eq!(parse_signed(&cs(&out)), Ok(x));
    }
}

#[test]
fn block_comments_in_one_line() {
    assert_eq!(strip_blocks(&cs("a /* b */ c"), false), (cs("a  c"), false));
    assert_eq!(strip_blocks(&cs("a /* b */ c /* d */ e"), false), (cs("a  c  e"), false));
    assert_eq!(strip_blocks(&cs("a /* b"), false), (cs("a "), true));
    assert_eq!(strip_blocks(&cs("b */ c"), true), (cs(" c"), false));
    assert_eq!(strip_blocks(&cs("b"), true), (cs(""), true));
    assert_eq!(strip_blocks(&cs("b */ c /* d"), true), (cs(" c "), true));
    assert_eq!(strip_blocks(&cs("a */ b"), false), (cs("a */ b"), false));
    assert_eq!(strip_blocks(&cs(""), false), (cs(""), false));
    assert_eq!(strip_blocks(&cs(""), true), (cs(""), true));
}

#[test]
fn block_comment_marks_do_not_overlap() {
    assert_eq!(strip_blocks(&cs("a /*/ b"), false), (cs("a "), true));
    assert_eq!(strip_blocks(&cs("a /*/ b */ c"), false), (cs("a  c"), false));
    assert_eq!(strip_blocks(&cs("a /**/ b"), false), (cs("a  b"), false));
    assert_eq!(strip_blocks(&cs("*/* b"), true), (cs("* b"), false));
    assert_eq!(strip_blocks(&cs("/"), false), (cs("/"), false));
    assert_eq!(strip_blocks(&cs("*"), true), (cs(""), true));
}

#[test]
fn line_comment_cut() {
    assert_eq!(string_of(strip_line_comment(&cs("a // b // c"))), "a ");
    assert_eq!(string_of(strip_line_comment(&cs("// b"))), "");
    assert_eq!(string_of(strip_line_comment(&cs("a / b"))), "a / b");
    assert_eq!(string_of(strip_line_comment(&cs("a /"))), "a /");
    assert_eq!(string_of(strip_line_comment(&cs("a //"))), "a ");
    assert_eq!(string_of(strip_line_comment(&cs(""))), "");
    assert_eq!(string_of(strip_line_comment(&cs("/"))), "/");
}
