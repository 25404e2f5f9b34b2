use token_board::decimal::{decimal_text, parse_integer};
use token_board::text::{
    chars_of, contains_text, join, same_text, split, to_uppercase_first, trim_prefix,
};

#[test]
fn a_title_is_made_of_one_word() {
    assert_eq!(to_uppercase_first("pro"), "Pro");
}

#[test]
fn a_title_is_made_of_several_words() {
    assert_eq!(
        to_uppercase_first("self_serve_business_usage_based"),
        "Self Serve Business Usage Based"
    );
}

#[test]
fn a_title_skips_empty_words() {
    assert_eq!(to_uppercase_first("__plus__team_"), "Plus Team");
    assert_eq!(to_uppercase_first("___"), "");
    assert_eq!(to_uppercase_first(""), "");
}

#[test]
fn a_title_keeps_what_has_no_capital() {
    assert_eq!(to_uppercase_first("2024_PRO_套餐"), "2024 PRO 套餐");
}

#[test]
fn a_title_may_grow_with_its_capitals() {
    assert_eq!(to_uppercase_first("ßeta_élan"), "SSeta Élan");
}

#[test]
fn a_title_is_its_own_title() {
    for text in ["pro", "self_serve_pro", "_a__2b_", " x_y", "ßeta_élan", ""] {
        let title = to_uppercase_first(text);
        assert!(!title.contains('_'));
        assert_eq!(to_uppercase_first(&title), title);
    }
}

#[test]
fn a_title_is_empty_without_words() {
    for text in ["", "_", "____"] {
        assert!(to_uppercase_first(text).is_empty());
    }
    for text in ["a", "_é_", " "] {
        assert!(!to_uppercase_first(text).is_empty());
    }
}

#[test]
fn parts_join_to_the_text() {
    for text in ["", "_", "a_b", "_a__b_", "没有"] {
        assert_eq!(join(&split(text, '_'), "_"), text);
    }
    assert_eq!(split("_a__b_", '_'), vec!["", "a", "", "b", ""]);
}

#[test]
fn a_prefix_is_trimmed_as_often_as_it_stands() {
    assert_eq!(trim_prefix("LEVEL_LEVEL_GOLD", "LEVEL_"), "GOLD");
    assert_eq!(trim_prefix("GOLD_LEVEL_", "LEVEL_"), "GOLD_LEVEL_");
    assert_eq!(trim_prefix("LEVEL_", "LEVEL_"), "");
    assert_eq!(trim_prefix("GOLD", ""), "GOLD");
}

#[test]
fn a_pattern_is_found_wherever_it_stands() {
    assert!(contains_text("TIME_UNIT_MINUTE", "MINUTE"));
    assert!(contains_text("MINUTES", "MINUTE"));
    assert!(!contains_text("MINUT", "MINUTE"));
    assert!(!contains_text("", "MINUTE"));
    assert!(contains_text("", ""));
}

#[test]
fn texts_are_compared_by_their_characters() {
    assert!(same_text("汇兑", "汇兑"));
    assert!(!same_text("汇兑", "汇"));
    assert!(!same_text("ab", "ac"));
    assert_eq!(chars_of("a汇"), vec!['a', '汇']);
}

#[test]
fn integers_are_written_in_decimal() {
    assert_eq!(decimal_text(0), "0");
    assert_eq!(decimal_text(-7), "-7");
    assert_eq!(decimal_text(1440), "1440");
    assert_eq!(decimal_text(i64::MAX), "9223372036854775807");
    assert_eq!(decimal_text(i64::MIN), "-9223372036854775808");
}

#[test]
fn decimal_notation_reads_back() {
    for n in [0, 9, 10, -1, -10, 123456789, i64::MAX, i64::MIN] {
        assert_eq!(parse_integer(&decimal_text(n)), Some(n));
    }
}

#[test]
fn integers_are_read_as_the_standard_library_reads_them() {
    for text in [
        "", "+", "-", "0", "-0", "+5", "--5", "007", " 5", "5 ", "5.0", "1e3", "９",
        "9223372036854775807", "9223372036854775808", "-9223372036854775808",
        "-9223372036854775809", "99999999999999999999999999999999999999999999",
        "000000000000000000000000000000000000000000000000012",
    ] {
        assert_eq!(parse_integer(text), text.parse::<i64>().ok(), "{text}");
    }
}
