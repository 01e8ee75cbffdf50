use place_feed::numbers::{parse_u32, replace_commas};
use place_feed::text::{contains_str, is_digit, is_space, split_char, str_eq, tokens, trim};

#[test]
fn unsigned_parse_follows_std() {
    for s in ["128", "+128", "0", "4294967295"] {
        assert_eq!(parse_u32(s), s.parse::<u32>().ok(), "input {s:?}");
    }
    for s in ["", "+", "-1", "4294967296", "12a", " 12", "1.5", "++1"] {
        assert_eq!(parse_u32(s), None, "input {s:?}");
        assert_eq!(s.parse::<u32>().ok(), None, "std on {s:?}");
    }
}

#[test]
fn comma_normalization_matches_std_replace() {
    for s in ["4,5", "4.5", "-4,5", "1,2,3", "", ",", "no commas"] {
        assert_eq!(replace_commas(s), s.replace(',', "."), "input {s:?}");
    }
}

#[test]
fn tokenization_matches_std_whitespace_split() {
    for s in ["4,5 stars 128 reviews", "  a \t b ", "", "   ", "one", "a\nb\u{a0}c"] {
        let ours: Vec<String> = tokens(s).into_iter().collect();
        let std_tokens: Vec<&str> = s.split_whitespace().collect();
        assert_eq!(ours, std_tokens, "input {s:?}");
    }
}

#[test]
fn trim_matches_std() {
    for s in ["  x y\t", "\n\nabc", "", "   ", "a", "\u{a0}padded\u{2028}"] {
        assert_eq!(trim(s), s.trim(), "input {s:?}");
    }
}

#[test]
fn split_keeps_empty_segments() {
    let parts = split_char("·a··b·", '·');
    let views: Vec<&str> = parts.iter().map(|p| p.as_str()).collect();
    assert_eq!(views, vec!["", "a", "", "b", ""]);
    let one = split_char("", '·');
    assert_eq!(one.len(), 1);
    assert_eq!(one[0], "");
}

#[test]
fn search_and_equality_helpers() {
    assert!(contains_str("abcdef", "cde"));
    assert!(!contains_str("abcdef", "gh"));
    assert!(contains_str("anything", ""));
    assert!(str_eq("same", "same"));
    assert!(!str_eq("same", "sams"));
    assert!(is_digit('7'));
    assert!(!is_digit('x'));
    assert!(is_space('\u{3000}'));
    assert!(!is_space('_'));
}
