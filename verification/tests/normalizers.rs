use roster_diff::normalize::{
    email_normalize, extranet_date_normalize, name_is_stable, name_normalize,
    operoo_date_normalize, phone_normalize, Normalizer,
};
use roster_diff::text::{
    char_is_whitespace, chars_of, collapse_whitespace, decimal_text, join_words, same_text,
    split_words, tail_chars, text_of,
};

fn reference_name(text: &str) -> String {
    text.to_lowercase().split_whitespace().collect::<Vec<_>>().join(" ")
}

#[test]
fn names_compare_without_case_and_spacing() {
    assert_eq!(name_normalize("Jane  Doe"), name_normalize("jane doe"));
    assert_eq!(name_normalize("Jane  Doe"), "jane doe");
}

#[test]
fn name_normalize_trims_and_collapses_every_whitespace() {
    assert_eq!(name_normalize("  Jane \t Doe\n"), "jane doe");
    assert_eq!(name_normalize("JANE\u{a0}\u{2003}DOE"), "jane doe");
    assert_eq!(name_normalize(""), "");
    assert_eq!(name_normalize(" \t "), "");
    assert_eq!(name_normalize("x"), "x");
}

#[test]
fn name_normalize_is_idempotent_on_samples() {
    for sample in [
        "Jane  Doe",
        "  MARY-ANN   O'Neil ",
        "\u{c9}milie  DU\u{a0}PONT",
        "\u{130}stanbul \u{3a3}\u{3a3}",
        "",
        "   ",
    ] {
        let once = name_normalize(sample);
        assert_eq!(name_normalize(&once), once, "sample {sample:?}");
        assert_eq!(once, reference_name(sample), "sample {sample:?}");
    }
}

#[test]
fn whitespace_test_agrees_with_the_standard_library() {
    let mut code: u32 = 0;
    while code <= 0x10ffff {
        if let Some(c) = char::from_u32(code) {
            assert_eq!(char_is_whitespace(c), c.is_whitespace(), "U+{code:04X}");
        }
        code += 1;
    }
}

#[test]
fn words_are_split_and_joined() {
    let chars = chars_of(" ab  c\td ");
    let words = split_words(&chars);
    assert_eq!(words, vec![vec!['a', 'b'], vec!['c'], vec!['d']]);
    assert_eq!(text_of(&join_words(&words)), "ab c d");
    assert_eq!(split_words(&chars_of("")), Vec::<Vec<char>>::new());
    assert_eq!(join_words(&Vec::new()), Vec::<char>::new());
    assert_eq!(collapse_whitespace("a \n b"), "a b");
}

#[test]
fn chars_and_text_are_inverse() {
    let chars = chars_of("h\u{e9}llo");
    assert_eq!(chars, vec!['h', '\u{e9}', 'l', 'l', 'o']);
    assert_eq!(text_of(&chars), "h\u{e9}llo");
    assert!(same_text("abc", "abc"));
    assert!(!same_text("abc", "abd"));
}

#[test]
fn emails_compare_without_case() {
    assert_eq!(email_normalize("Parent@Example.com"), "parent@example.com");
    assert_eq!(email_normalize("Parent@Example.com"), email_normalize("parent@example.com"));
    assert_ne!(email_normalize("parent@example.com"), email_normalize("other@example.com"));
    assert_eq!(email_normalize(" A b "), " a b ");
}

#[test]
fn phones_compare_by_last_nine_characters() {
    assert_eq!(phone_normalize("+61412345678"), phone_normalize("0412345678"));
    assert_eq!(phone_normalize("+61412345678"), "412345678");
    assert_eq!(phone_normalize("412345678"), "412345678");
}

#[test]
fn short_phone_numbers_are_kept_whole() {
    assert_eq!(phone_normalize("12345"), "12345");
    assert_eq!(phone_normalize(""), "");
    assert_eq!(phone_normalize("12345678"), "12345678");
    assert_eq!(tail_chars("abcdef", 0), "");
    assert_eq!(tail_chars("abcdef", 2), "ef");
    assert_eq!(tail_chars("\u{e9}\u{e8}\u{ea}", 2), "\u{e8}\u{ea}");
}

#[test]
fn dates_in_both_notations_have_one_canonical_form() {
    assert_eq!(extranet_date_normalize("2015-03-07"), "2015-03-07");
    assert_eq!(operoo_date_normalize("7 March 2015"), "2015-03-07");
    assert_eq!(extranet_date_normalize("2015-03-07"), operoo_date_normalize("7 March 2015"));
    assert_eq!(operoo_date_normalize("5 March 2019"), "2019-03-05");
    assert_eq!(operoo_date_normalize("25 December 2012"), "2012-12-25");
}

#[test]
fn malformed_dates_become_the_empty_text() {
    assert_eq!(operoo_date_normalize("garbage"), "");
    assert_eq!(extranet_date_normalize("garbage"), "");
    assert_eq!(extranet_date_normalize("7 March 2015"), "");
    assert_eq!(operoo_date_normalize("2015-03-07"), "");
    assert_eq!(extranet_date_normalize("2015-02-30"), "");
    assert_eq!(extranet_date_normalize(""), "");
    assert_ne!(operoo_date_normalize("garbage"), extranet_date_normalize("2015-03-07"));
    assert_eq!(operoo_date_normalize("garbage"), extranet_date_normalize("rubbish"));
}

#[test]
fn normalizers_apply_by_kind_and_keep_missing_values() {
    assert_eq!(Normalizer::Name.apply(" A  B "), "a b");
    assert_eq!(Normalizer::Email.apply("A@B"), "a@b");
    assert_eq!(Normalizer::Phone.apply("0123456789"), "123456789");
    assert_eq!(Normalizer::ExtranetDate.apply("2001-02-03"), "2001-02-03");
    assert_eq!(Normalizer::OperooDate.apply("3 February 2001"), "2001-02-03");
    assert_eq!(Normalizer::Name.apply_opt(&None), None);
    assert_eq!(Normalizer::Name.apply_opt(&Some("X  y".to_string())), Some("x y".to_string()));
}

#[test]
fn numbers_are_written_in_decimal() {
    assert_eq!(decimal_text(0), "0");
    assert_eq!(decimal_text(7), "7");
    assert_eq!(decimal_text(10), "10");
    assert_eq!(decimal_text(1234567890), "1234567890");
    assert_eq!(decimal_text(usize::MAX), usize::MAX.to_string());
}

#[test]
fn sample_names_have_stable_normal_forms() {
    for sample in ["Jane  Doe", " MARY-ANN  O'Neil ", "\u{c9}milie DU\u{a0}PONT", "\u{130}stanbul \u{3a3}\u{3a3}", "", "  "] {
        assert!(name_is_stable(sample), "sample {sample:?}");
    }
}
