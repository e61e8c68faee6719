use finder::text::{
    blank, chars_of, contains, first_detail, i64_text, is_whitespace, replace, same_text,
    split_on, split_words, trim, usize_text,
};

#[test]
fn whitespace_is_what_unicode_says() {
    for code in 0..=0x10ffffu32 {
        if let Some(c) = char::from_u32(code) {
            assert_eq!(is_whitespace(c), c.is_whitespace(), "U+{code:04X}");
        }
    }
}

#[test]
fn text_is_trimmed_at_both_ends() {
    for text in ["", "  ", " a ", "\u{a0}a b\u{3000}", "ab", "\ta"] {
        assert_eq!(trim(text), text.trim());
        assert_eq!(trim(&trim(text)), text.trim());
        assert_eq!(blank(text), text.trim().is_empty());
    }
}

#[test]
fn text_splits_into_words_and_pieces() {
    for text in ["", " a  b ", "a\u{2003}b\nc", "ä ö"] {
        assert_eq!(split_words(text), text.split_whitespace().collect::<Vec<_>>());
    }
    for (text, pat) in [("", "a"), ("aaa", "aa"), ("a,b,,c", ","), ("äöä", "ö"), ("ab", "abc")] {
        assert_eq!(split_on(text, pat), text.split(pat).collect::<Vec<_>>());
        assert_eq!(replace(text, pat, "-x-"), text.replace(pat, "-x-"));
        assert_eq!(contains(text, pat), text.contains(pat));
    }
}

#[test]
fn numbers_are_written_in_decimal() {
    for n in [0usize, 7, 10, 100_000, usize::MAX] {
        assert_eq!(usize_text(n), n.to_string());
    }
    for n in [0i64, -1, 42, i64::MIN, i64::MAX] {
        assert_eq!(i64_text(n), n.to_string());
    }
}

#[test]
fn texts_are_the_same_when_their_characters_are() {
    assert!(same_text("ä", "ä") && !same_text("a", "b") && !same_text("a", "aa"));
    assert_eq!(chars_of("aä😀"), vec!['a', 'ä', '😀']);
}

#[test]
fn the_first_detail_is_the_first_line_that_is_not_blank() {
    assert_eq!(first_detail("\n \r\n  a b \r\nc").as_deref(), Some("a b"));
    assert_eq!(first_detail(" \n"), None);
    assert_eq!(first_detail(""), None);
}
