use elitelm::text::{
    count_tokens, decimal_string, is_blank, is_whitespace, replace, stream_pieces, trim,
};

#[test]
fn whitespace_matches_std() {
    for code in 0u32..0x3100 {
        if let Some(c) = char::from_u32(code) {
            assert_eq!(is_whitespace(c), c.is_whitespace(), "code point {code:#x}");
        }
    }
    assert!(!is_whitespace('\u{feff}'));
}

#[test]
fn token_counts_match_split_whitespace() {
    for text in ["", "   ", "hello rust", "  a  b\tc\n", "EliteLM fake response: hello rust", "x\u{3000}y"] {
        assert_eq!(count_tokens(text) as usize, text.split_whitespace().count(), "{text:?}");
    }
    assert_eq!(count_tokens("EliteLM fake response: smoke test"), 5);
}

#[test]
fn stream_pieces_cut_words_and_separators() {
    assert_eq!(stream_pieces(""), vec![""]);
    assert_eq!(stream_pieces("hello rust"), vec!["hello", " ", "rust"]);
    assert_eq!(stream_pieces("a  b"), vec!["a", " ", " b"]);
    assert_eq!(stream_pieces(" lead"), vec![" lead"]);
    assert_eq!(stream_pieces("end "), vec!["end", " "]);
    for text in ["", "a  b", " x y  z ", "one\ttwo\nthree"] {
        assert_eq!(stream_pieces(text).concat(), text);
    }
}

#[test]
fn trim_and_blank_match_std() {
    for text in ["", "  ", " a b ", "\tx\n", "\u{2003}y\u{2003}", "z"] {
        assert_eq!(trim(text), text.trim());
        assert_eq!(is_blank(text), text.trim().is_empty());
    }
}

#[test]
fn decimal_and_replace() {
    assert_eq!(decimal_string(0), "0");
    assert_eq!(decimal_string(60), "60");
    assert_eq!(decimal_string(u64::MAX), u64::MAX.to_string());
    assert_eq!(replace("a<T>b<T>", "<T>", "-"), "a-b-");
    assert_eq!(replace("aaa", "aa", "b"), "aaa".replace("aa", "b"));
    assert_eq!(replace("no match", "<T>", "-"), "no match");
}
