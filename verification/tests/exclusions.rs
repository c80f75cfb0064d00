use update_generator::exclusions::{is_excluded_by, is_whitespace, parse_exclusions};

fn names(v: &[&str]) -> Vec<String> {
    v.iter().map(|s| s.to_string()).collect()
}

#[test]
fn exclusion_lines_lose_line_ends_and_trailing_blanks() {
    assert_eq!(parse_exclusions("a \r\nb"), names(&["a", "b"]));
}

#[test]
fn exclusion_text_without_lines_is_empty() {
    assert_eq!(parse_exclusions(""), Vec::<String>::new());
}

#[test]
fn exclusion_blank_lines_stay_as_empty_entries() {
    assert_eq!(parse_exclusions("x\n\n  \ny\n"), names(&["x", "", "", "y"]));
}

#[test]
fn exclusion_leading_blanks_are_kept() {
    assert_eq!(parse_exclusions("  lead.sql\t\n"), names(&["  lead.sql"]));
}

#[test]
fn exclusion_last_line_without_line_feed_counts() {
    assert_eq!(parse_exclusions("one\ntwo\r"), names(&["one", "two"]));
}

#[test]
fn exclusion_unicode_white_space_is_trimmed() {
    assert_eq!(parse_exclusions("a\u{3000}\u{a0}\nb\u{2028}"), names(&["a", "b"]));
}

#[test]
fn whitespace_matches_the_standard_library() {
    for c in ['\t', '\n', '\u{b}', '\u{c}', '\r', ' ', '\u{85}', '\u{a0}', '\u{1680}', '\u{2000}',
        '\u{200a}', '\u{2028}', '\u{2029}', '\u{202f}', '\u{205f}', '\u{3000}', 'a', '\u{200b}', '_', '\u{0}']
    {
        assert_eq!(is_whitespace(c), c.is_whitespace(), "{:?}", c);
    }
}

#[test]
fn exclusion_by_exact_name() {
    assert!(is_excluded_by("foo.sql", &names(&["bar", "foo.sql"])));
    assert!(!is_excluded_by("foo.sql", &names(&["bar", "foo.SQL"])));
}

#[test]
fn exclusion_compares_as_paths() {
    assert!(is_excluded_by("foo", &names(&["foo/"])));
    assert!(is_excluded_by("foo", &names(&["foo//."])));
    assert!(!is_excluded_by("foo", &names(&["./foo"])));
    assert!(!is_excluded_by("foo", &names(&["/foo"])));
    assert!(!is_excluded_by("foo", &names(&[""])));
    assert!(!is_excluded_by("foo", &names(&["dir/foo"])));
}

#[test]
fn exclusion_agrees_with_std_paths() {
    let entries = ["foo", "foo/", "./foo", "foo/.", "/foo", "", ".", "a/foo", "foo/./", "foo ", " foo"];
    for e in entries {
        let expected = std::path::PathBuf::from(e) == std::path::Path::new("foo");
        assert_eq!(is_excluded_by("foo", &names(&[e])), expected, "{:?}", e);
    }
}

#[test]
fn law_trailing_separator_on_concrete_entry() {
    assert!(is_excluded_by("report.sql", &names(&["report.sql/"])));
}

#[test]
fn exclusion_reads_backslash_as_separator() {
    assert!(is_excluded_by("a.sql", &names(&["a.sql\\"])));
    assert!(is_excluded_by("a.sql", &names(&["a.sql\\.\\"])));
    assert!(!is_excluded_by("a.sql", &names(&["\\a.sql"])));
    assert!(!is_excluded_by("a.sql", &names(&[".\\a.sql"])));
    assert!(!is_excluded_by("a.sql", &names(&["dir\\a.sql"])));
}
