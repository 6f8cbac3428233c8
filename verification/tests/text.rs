use mega::text::{compare_text, is_space_char, split_char, split_whitespace, text_eq, trim_str};

#[test]
fn trim_matches_std() {
    for s in ["", "  a b  ", "\u{2003}x\u{3000}", "\n\t", "abc", " \u{85}é \u{200b}"] {
        assert_eq!(trim_str(s), s.trim(), "{:?}", s);
    }
}

#[test]
fn split_whitespace_matches_std() {
    for s in ["", "   ", "a", " a  b\tc\n", "x\u{a0}y", "kad get  key"] {
        let ours = split_whitespace(s);
        let std: Vec<String> = s.split_whitespace().map(|w| w.to_string()).collect();
        assert_eq!(ours, std, "{:?}", s);
    }
}

#[test]
fn split_char_matches_std() {
    for s in ["", "/", "a/b", "p2p://peer/repo.git", "//x//"] {
        let ours = split_char(s, '/');
        let std: Vec<String> = s.split('/').map(|w| w.to_string()).collect();
        assert_eq!(ours, std, "{:?}", s);
    }
}

#[test]
fn whitespace_is_unicode_white_space() {
    for c in ['\t', '\n', '\u{b}', '\u{c}', '\r', ' ', '\u{85}', '\u{a0}', '\u{1680}', '\u{2000}', '\u{200a}', '\u{2028}', '\u{2029}', '\u{202f}', '\u{205f}', '\u{3000}', 'a', '\u{200b}', '\u{180e}', '0'] {
        assert_eq!(is_space_char(c), c.is_whitespace(), "{:?}", c);
    }
}

#[test]
fn text_comparison() {
    assert!(text_eq("kad", "kad"));
    assert!(!text_eq("kad", "ka"));
    assert_eq!(compare_text("abc", "abd"), -1);
    assert_eq!(compare_text("abc", "ab"), 1);
    assert_eq!(compare_text("", ""), 0);
    assert_eq!(compare_text("é", "z"), 1);
}
