use lunash::paths::basename;
use lunash::paths::dirname;
use lunash::strings::split;
use lunash::strings::trim;

#[test]
fn split_preserves_empty_segments() {
    let parts = split("a,,b", ",");
    assert_eq!(parts, vec!["a".to_string(), "".to_string(), "b".to_string()]);
}

#[test]
fn split_without_separator_is_one_segment() {
    assert_eq!(split("abc", ","), vec!["abc".to_string()]);
}

#[test]
fn split_multi_char_separator() {
    let parts = split("xabyabz", "ab");
    assert_eq!(parts, vec!["x".to_string(), "y".to_string(), "z".to_string()]);
}

#[test]
fn split_empty_separator_cuts_between_characters() {
    let parts = split("ab", "");
    assert_eq!(
        parts,
        vec!["".to_string(), "a".to_string(), "b".to_string(), "".to_string()]
    );
}

#[test]
fn split_leading_and_trailing_separators() {
    let parts = split(",a,", ",");
    assert_eq!(parts, vec!["".to_string(), "a".to_string(), "".to_string()]);
}

#[test]
fn split_of_empty_string_is_one_empty_segment() {
    assert_eq!(split("", ","), vec!["".to_string()]);
}

#[test]
fn split_of_only_separator_is_two_empty_segments() {
    assert_eq!(split(",", ","), vec!["".to_string(), "".to_string()]);
}

#[test]
fn trim_handles_unicode_whitespace() {
    assert_eq!(trim("\u{a0}\u{2003}x\u{a0}"), "x".to_string());
}

#[test]
fn trim_strips_both_ends() {
    assert_eq!(trim("  x  "), "x".to_string());
}

#[test]
fn trim_keeps_inner_whitespace() {
    assert_eq!(trim("\t a b \n"), "a b".to_string());
}

#[test]
fn trim_of_all_whitespace_is_empty() {
    assert_eq!(trim(" \t\r\n "), "".to_string());
}

#[test]
fn trim_of_empty_is_empty() {
    assert_eq!(trim(""), "".to_string());
}

#[test]
fn basename_of_file_path() {
    assert_eq!(basename("/a/b.txt"), Some("b.txt".to_string()));
}

#[test]
fn basename_ignores_trailing_slashes() {
    assert_eq!(basename("a/b/"), Some("b".to_string()));
}

#[test]
fn basename_of_root_is_none() {
    assert_eq!(basename("/"), None);
}

#[test]
fn basename_of_parent_reference_is_none() {
    assert_eq!(basename("a/.."), None);
}

#[test]
fn basename_skips_self_references() {
    assert_eq!(basename("a/b/."), Some("b".to_string()));
}

#[test]
fn basename_of_bare_dot_is_none() {
    assert_eq!(basename("."), None);
}

#[test]
fn basename_of_empty_is_none() {
    assert_eq!(basename(""), None);
}

#[test]
fn dirname_of_nested_path() {
    assert_eq!(dirname("/a/b"), Some("/a".to_string()));
}

#[test]
fn dirname_of_bare_name_is_empty() {
    assert_eq!(dirname("a"), Some("".to_string()));
}

#[test]
fn dirname_of_absolute_single_component_is_root() {
    assert_eq!(dirname("/a"), Some("/".to_string()));
}

#[test]
fn dirname_of_root_is_none() {
    assert_eq!(dirname("/"), None);
}

#[test]
fn dirname_collapses_duplicate_separators() {
    assert_eq!(dirname("/a//b/"), Some("/a".to_string()));
}
