use katcp::utils::{escape, unescape};

#[test]
fn test_escape() {
    assert_eq!(r"This\_is\_my\_foo\n", escape("This is my foo\n"));
    assert_eq!("This is my foo\n", unescape(r"This\_is\_my\_foo\n"));
}

#[test]
fn escape_each_special_character() {
    assert_eq!(escape(""), r"\@");
    assert_eq!(escape("\\"), r"\\");
    assert_eq!(escape(" "), r"\_");
    assert_eq!(escape("\0"), r"\0");
    assert_eq!(escape("\n"), r"\n");
    assert_eq!(escape("\r"), r"\r");
    assert_eq!(escape("\u{1b}"), r"\e");
    assert_eq!(escape("\t"), r"\t");
    assert_eq!(escape("a@b_c"), "a@b_c");
    assert_eq!(escape("é \\ ü"), r"é\_\\\_ü");
}

#[test]
fn unescape_each_sequence() {
    assert_eq!(unescape(r"\@"), "");
    assert_eq!(unescape(r"\\"), "\\");
    assert_eq!(unescape(r"\_"), " ");
    assert_eq!(unescape(r"\0"), "\0");
    assert_eq!(unescape(r"\n"), "\n");
    assert_eq!(unescape(r"\r"), "\r");
    assert_eq!(unescape(r"\e"), "\u{1b}");
    assert_eq!(unescape(r"\t"), "\t");
    assert_eq!(unescape("plain"), "plain");
    assert_eq!(unescape(r"a\xb"), r"a\xb");
}

#[test]
fn unescape_undoes_escape() {
    for s in ["", "a", "two words", "tab\tnl\ncr\rnul\0esc\u{1b}", "back\\slash", "\\\\", "x\\ y", "\\"] {
        assert_eq!(unescape(&escape(s)), s);
    }
}

#[test]
fn unescape_replaces_one_kind_after_the_other() {
    // a backslash before an escape letter collides with the escape sequences
    assert_eq!(escape("\\n"), r"\\n");
    assert_eq!(unescape(r"\\n"), "\\\n");
    assert_eq!(escape("\\@"), r"\\@");
    assert_eq!(unescape(r"\\@"), "\\");
}
