use yt_dlp_gui::text::{decimal_string, join_strings, split_whitespace, trim_str, trim_trailing_separators};

#[test]
fn trimming_matches_std() {
    for s in ["", "  ", " a ", "\u{2003}x y\u{85}", "\u{200b}z", "tab\t", "\r\nq\u{205f}"] {
        assert_eq!(trim_str(s), s.trim());
    }
}

#[test]
fn trimming_twice_is_trimming_once() {
    let s = " \t word \u{3000}";
    assert_eq!(trim_str(trim_str(s)), trim_str(s));
}

#[test]
fn trailing_separators() {
    assert_eq!(trim_trailing_separators("a/b//\\"), "a/b");
    assert_eq!(trim_trailing_separators("/"), "");
    assert_eq!(trim_trailing_separators("a/b"), "a/b");
}

#[test]
fn splitting_matches_std() {
    for s in ["", "   ", "a", " a  b\tc\n", "x\u{a0}y", "--opt=1  --flag"] {
        let expected: Vec<String> = s.split_whitespace().map(|t| t.to_string()).collect();
        assert_eq!(split_whitespace(s), expected);
    }
}

#[test]
fn tokens_are_nonempty_without_whitespace() {
    for t in split_whitespace(" a  bb \u{2028} ccc ") {
        assert!(!t.is_empty());
        assert!(!t.chars().any(|c| c.is_whitespace()));
    }
}

#[test]
fn joining() {
    let parts = vec!["a".to_string(), "b".to_string(), "c".to_string()];
    assert_eq!(join_strings(&parts, "/"), "a/b/c");
    assert_eq!(join_strings(&vec!["x".to_string()], "/"), "x");
    assert_eq!(join_strings(&vec![], "/"), "");
}

#[test]
fn decimals() {
    assert_eq!(decimal_string(0), "0");
    assert_eq!(decimal_string(7), "7");
    assert_eq!(decimal_string(2160), "2160");
    assert_eq!(decimal_string(u64::MAX), u64::MAX.to_string());
}
