use trust_runtime::security::AccessRole;
use trust_runtime::text::{parse_unsigned_chars, split_words};

#[test]
fn roles_parse_and_order() {
    assert_eq!(AccessRole::parse(" Admin "), Some(AccessRole::Admin));
    assert_eq!(AccessRole::parse("ENGINEER"), Some(AccessRole::Engineer));
    assert_eq!(AccessRole::parse("guest"), None);
    assert_eq!(AccessRole::Operator.as_str(), "operator");
    assert!(AccessRole::Admin.allows(AccessRole::Viewer));
    assert!(AccessRole::Operator.allows(AccessRole::Operator));
    assert!(!AccessRole::Viewer.allows(AccessRole::Operator));
}

#[test]
fn unsigned_parsing_matches_std() {
    let cases = ["0", "42", "+7", "", "+", "-1", "1a", "18446744073709551615", "18446744073709551616", "00012"];
    for c in cases {
        let chars: Vec<char> = c.chars().collect();
        assert_eq!(parse_unsigned_chars(&chars, u64::MAX), c.parse::<u64>().ok(), "{c}");
        assert_eq!(parse_unsigned_chars(&chars, 255), c.parse::<u8>().ok().map(u64::from), "{c}");
    }
}

#[test]
fn words_split_on_whitespace() {
    let chars: Vec<char> = "  a\tbc  d ".chars().collect();
    let words: Vec<String> = split_words(&chars).into_iter().map(|w| w.into_iter().collect()).collect();
    assert_eq!(words, vec!["a", "bc", "d"]);
}
