//! Plain-text helpers.

use codex_surface::strings::{
    begins_with, comes_before, count_matches, decimal_string, find, has_char, is_blank,
    is_white_space, lines_of, prefix,
    push_repeated, push_right_aligned, replaced_all, replaced_first, same_text, split_at_char,
    trimmed_end,
};

#[test]
fn lines_and_pieces() {
    assert_eq!(lines_of("a\r\nb\n\nc\r"), vec!["a", "b", "", "c\r"]);
    assert!(lines_of("").is_empty());
    assert_eq!(lines_of("\n"), vec![""]);
    assert_eq!(split_at_char("a\nb\n", '\n'), vec!["a", "b", ""]);
    assert_eq!(split_at_char("", '\n'), vec![""]);
    assert_eq!(trimmed_end("x\r\r", '\r'), "x");
    assert_eq!(split_at_char("p,q", ',').join(","), "p,q");
}

#[test]
fn lines_agree_with_the_standard_library() {
    for s in ["", "\n", "\r\n", "a", "a\r", "a\r\r\nb", "\n\n", "é\n\r", "x\ny\r\nz\n"] {
        assert_eq!(lines_of(s), s.lines().collect::<Vec<_>>(), "{s:?}");
    }
}

#[test]
fn search_and_replacement_agree_with_the_standard_library() {
    for (s, p) in [("aaaa", "aa"), ("abcabc", "bc"), ("", "a"), ("ééa", "é"), ("aba", "aba")] {
        assert_eq!(count_matches(s, p), s.match_indices(p).count());
        assert_eq!(replaced_all(s, p, "<>"), s.replace(p, "<>"));
        assert_eq!(replaced_first(s, p, "<>"), s.replacen(p, "<>", 1));
        assert_eq!(replaced_all(s, p, p), s);
    }
    assert_eq!(find("xyz", "z"), Some(2));
    assert_eq!(find("éz", "z"), Some(1));
    assert_eq!(find("xyz", ""), Some(0));
    assert_eq!(find("xyz", "q"), None);
    assert_eq!(prefix("éab", 2), "éa");
}

#[test]
fn numbers_are_written_in_decimal() {
    for n in [0usize, 7, 10, 99, 100, 2000, 4294967295] {
        assert_eq!(decimal_string(n), n.to_string());
    }
    let mut out = "<".to_string();
    push_right_aligned(&mut out, 42, 6);
    push_right_aligned(&mut out, 1234567, 6);
    assert_eq!(out, "<    421234567");
    push_repeated(&mut out, "/ ", 2);
    assert_eq!(out, "<    421234567/ / ");
}

#[test]
fn order_agrees_with_the_standard_library() {
    let texts = ["", "a", "ab", "b", "B", "é", "z", "\u{10000}", "\u{ffff}", "aé"];
    for a in texts {
        for b in texts {
            assert_eq!(comes_before(a, b), a < b, "{a:?} {b:?}");
            assert_eq!(same_text(a, b), a == b);
            assert_eq!(begins_with(a, b), a.starts_with(b));
        }
    }
    assert!(has_char("abc", 'b'));
    assert!(!has_char("abc", 'd'));
}

#[test]
fn white_space_agrees_with_the_standard_library() {
    for c in '\0'..=char::MAX {
        assert_eq!(is_white_space(c), c.is_whitespace(), "{c:?}");
    }
    for s in ["", " ", "\n\t", " x ", "\u{a0}\u{3000}", "\u{200b}"] {
        assert_eq!(is_blank(s), s.trim().is_empty(), "{s:?}");
    }
}
