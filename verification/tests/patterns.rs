use lunash::pattern::Pattern;

#[test]
fn captures_yield_full_match_then_groups() {
    let p = Pattern::new(r"(\d+)-(\d+)").expect("the pattern is valid");
    let caps = p.captures("12-34");
    assert_eq!(
        caps,
        vec!["12-34".to_string(), "12".to_string(), "34".to_string()]
    );
}

#[test]
fn no_match_yields_empty_sequence() {
    let p = Pattern::new(r"(\d+)-(\d+)").expect("the pattern is valid");
    let caps = p.captures("no digits here");
    assert!(caps.is_empty());
}

#[test]
fn unmatched_optional_group_is_omitted() {
    let p = Pattern::new("(a)(b)?").expect("the pattern is valid");
    let caps = p.captures("a");
    assert_eq!(caps, vec!["a".to_string(), "a".to_string()]);
}

#[test]
fn is_match_reports_presence() {
    let p = Pattern::new("ab+c").expect("the pattern is valid");
    assert!(p.is_match("xxabbbcyy"));
    assert!(!p.is_match("ac"));
}

#[test]
fn invalid_pattern_is_reported_not_fatal() {
    match Pattern::new("(") {
        Err(message) => assert!(!message.is_empty()),
        Ok(_) => panic!("an unclosed group must be refused"),
    }
}
