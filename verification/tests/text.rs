use typesafe::{truncate, Duration};


#[test]
fn truncate_counts_characters_not_bytes() {
    assert_eq!(truncate("hello", 10), "hello");
    assert_eq!(truncate("héllo wörld", 5), "héllo...");
}

#[test]
fn truncate_trims_before_counting() {
    assert_eq!(truncate("  hello  ", 5), "hello");
    assert_eq!(truncate("\u{3000}abcdef\t", 3), "abc...");
    assert_eq!(truncate("   ", 3), "");
}

#[test]
fn parses_only_the_seconds_form_of_retry_after() {
    assert_eq!(typesafe::parse_retry_after("30"), Some(Duration::from_secs(30)));
    assert_eq!(typesafe::parse_retry_after("  7 "), Some(Duration::from_secs(7)));
    assert_eq!(typesafe::parse_retry_after("Wed, 21 Oct 2026 07:28:00 GMT"), None);
    assert_eq!(typesafe::parse_retry_after(""), None);
}

#[test]
fn retry_after_parsing_follows_unsigned_integer_rules() {
    assert_eq!(typesafe::parse_retry_after("+5"), Some(Duration::from_secs(5)));
    assert_eq!(typesafe::parse_retry_after("-5"), None);
    assert_eq!(typesafe::parse_retry_after("+"), None);
    assert_eq!(typesafe::parse_retry_after("1.5"), None);
    assert_eq!(
        typesafe::parse_retry_after("18446744073709551615"),
        Some(Duration::from_secs(u64::MAX))
    );
    assert_eq!(typesafe::parse_retry_after("18446744073709551616"), None);

}
