use unicum_api::text::{float_literal, join_with_spaces, parse_unsigned, split_all, trim_str, IntErrorKind};

#[test]
fn texts_split_at_every_separator() {
    assert_eq!(vec!["a", "", "b"], split_all("a//b", '/'));
    assert_eq!(vec![""], split_all("", '/'));
    assert_eq!(vec!["", ""], split_all("/", '/'));
}

#[test]
fn texts_join_with_spaces() {
    assert_eq!("a b c", join_with_spaces(&vec!["a".to_owned(), "b".to_owned(), "c".to_owned()]));
    assert_eq!("", join_with_spaces(&vec![]));
}

#[test]
fn texts_trim_white_space() {
    assert_eq!("x y", trim_str(" \t x y \n"));
}

#[test]
fn unsigned_numbers_parse_as_std_does() {
    assert_eq!(Ok(255), parse_unsigned("+255", 255));
    assert_eq!(Err(IntErrorKind::PosOverflow), parse_unsigned("256", 255));
    assert_eq!(Err(IntErrorKind::Empty), parse_unsigned("", 255));
    assert_eq!(Err(IntErrorKind::InvalidDigit), parse_unsigned("-1", 255));
    assert_eq!(Err(IntErrorKind::InvalidDigit), parse_unsigned("+", 255));
}

#[test]
fn float_literals_follow_the_std_grammar() {
    for accepted in ["1", "1.5", ".5", "5.", "-2e3", "+1E-2", "inf", "-Infinity", "NaN"] {
        assert!(float_literal(accepted), "{accepted} should be a float");
        assert!(accepted.parse::<f32>().is_ok());
    }
    for refused in ["", ".", "e5", "1e", "1.2.3", "abc", "1,5", "--1"] {
        assert!(!float_literal(refused), "{refused} should not be a float");
        assert!(refused.parse::<f32>().is_err());
    }
}
