use ar5iv_util::text::{
    chars_of, joined, count_char, decimal_string, digit_of, find_char, parse_number, same_text,
    string_of, string_of_range,
};

#[test]
fn chars_and_back() {
    let chars = chars_of("math/0607467");
    assert_eq!(chars.len(), 12);
    assert_eq!(chars[4], '/');
    assert_eq!(string_of(&chars), "math/0607467");
    assert_eq!(string_of(&chars_of("")), "");
}

#[test]
fn chars_are_characters_not_bytes() {
    let chars = chars_of("é/ü");
    assert_eq!(chars, vec!['é', '/', 'ü']);
    assert_eq!(string_of_range(&chars, 2, 3), "ü");
}

#[test]
fn range_of_characters() {
    let chars = chars_of("2301.00001");
    assert_eq!(string_of_range(&chars, 0, 4), "2301");
    assert_eq!(string_of_range(&chars, 5, 10), "00001");
    assert_eq!(string_of_range(&chars, 3, 3), "");
}

#[test]
fn first_occurrence_is_found() {
    assert_eq!(find_char(&chars_of("a,b,c"), ','), 1);
    assert_eq!(find_char(&chars_of(",x"), ','), 0);
}

#[test]
fn missing_character_gives_the_length() {
    assert_eq!(find_char(&chars_of("abc"), ','), 3);
    assert_eq!(find_char(&chars_of(""), ','), 0);
}

#[test]
fn occurrences_are_counted() {
    assert_eq!(count_char("2023-01-05", '-'), 2);
    assert_eq!(count_char("20230105", '-'), 0);
    assert_eq!(count_char("--", '-'), 2);
    assert_eq!(count_char("", '-'), 0);
}

#[test]
fn decimal_notation() {
    assert_eq!(decimal_string(0), "0");
    assert_eq!(decimal_string(7), "7");
    assert_eq!(decimal_string(10), "10");
    assert_eq!(decimal_string(2301), "2301");
    assert_eq!(decimal_string(u64::MAX), "18446744073709551615");
}

#[test]
fn texts_are_joined() {
    assert_eq!(
        joined("https://export.arxiv.org/abs/", "2301.00001"),
        "https://export.arxiv.org/abs/2301.00001"
    );
    assert_eq!(joined("", "x"), "x");
    assert_eq!(joined("x", ""), "x");
}

#[test]
fn texts_are_compared() {
    assert!(same_text("width", "width"));
    assert!(same_text("", ""));
    assert!(!same_text("width", "widths"));
    assert!(!same_text("width", "widtg"));
    assert!(!same_text("a", ""));
}

#[test]
fn digits_are_read() {
    assert_eq!(digit_of('0'), Some(0));
    assert_eq!(digit_of('9'), Some(9));
    assert_eq!(digit_of('a'), None);
    assert_eq!(digit_of('٣'), None);
}

#[test]
fn numbers_are_read() {
    assert_eq!(parse_number("0"), Some(0));
    assert_eq!(parse_number("4"), Some(4));
    assert_eq!(parse_number("120"), Some(120));
    assert_eq!(parse_number("007"), Some(7));
    assert_eq!(parse_number("18446744073709551615"), Some(u64::MAX));
}

#[test]
fn what_is_no_number_is_refused() {
    assert_eq!(parse_number(""), None);
    assert_eq!(parse_number("-1"), None);
    assert_eq!(parse_number("12a"), None);
    assert_eq!(parse_number(" 12"), None);
    assert_eq!(parse_number("1.5"), None);
}

#[test]
fn numbers_that_do_not_fit_are_refused() {
    assert_eq!(parse_number("18446744073709551616"), None);
    assert_eq!(parse_number("99999999999999999999999"), None);
}

#[test]
fn reading_the_notation_gives_the_number_back() {
    for n in [0u64, 1, 9, 10, 99, 100, 4096, 1667260800, u64::MAX] {
        assert_eq!(parse_number(&decimal_string(n)), Some(n));
    }
}
