use reader_library::ordering::text_before_or_same;
use reader_library::text::{
    contains, from_chars, is_space_char, matches_at, replace_chars, same_chars,
    slice_chars, starts_with, to_chars, to_lower_char, to_lowercase, trimmed,
};

#[test]
fn chars_round_trip() {
    assert_eq!(from_chars(&to_chars("héllo wörld")), "héllo wörld");
    assert_eq!(to_chars("ab"), vec!['a', 'b']);
    assert_eq!(from_chars(&Vec::new()), "");
}

#[test]
fn lowercase_moves_ascii_letters_only() {
    assert_eq!(to_lower_char('A'), 'a');
    assert_eq!(to_lower_char('Z'), 'z');
    assert_eq!(to_lower_char('a'), 'a');
    assert_eq!(to_lower_char('@'), '@');
    assert_eq!(to_lower_char('['), '[');
    assert_eq!(to_lower_char('É'), 'É');
    assert_eq!(from_chars(&to_lowercase(&to_chars("Cover.PDF"))), "cover.pdf");
}

#[test]
fn replace_changes_every_occurrence() {
    assert_eq!(from_chars(&replace_chars(&to_chars("a-b-c"), '-', ' ')), "a b c");
    assert_eq!(from_chars(&replace_chars(&to_chars("abc"), '-', ' ')), "abc");
}

#[test]
fn prefix_and_substring() {
    let s = to_chars("table-of-contents.txt");
    assert!(starts_with(&s, &to_chars("table")));
    assert!(!starts_with(&s, &to_chars("able")));
    assert!(contains(&s, &to_chars("-of-")));
    assert!(contains(&s, &to_chars("")));
    assert!(!contains(&s, &to_chars("index")));
    assert!(!contains(&to_chars("ab"), &to_chars("abc")));
    assert!(matches_at(&s, &to_chars("of"), 6));
    assert!(!matches_at(&s, &to_chars("of"), 5));
    assert!(!matches_at(&s, &to_chars("txt"), 30));
}

#[test]
fn same_chars_compares_whole_texts() {
    assert!(same_chars(&to_chars("abc"), &to_chars("abc")));
    assert!(!same_chars(&to_chars("abc"), &to_chars("abd")));
    assert!(!same_chars(&to_chars("abc"), &to_chars("ab")));
    assert!(same_chars(&to_chars(""), &to_chars("")));
}

#[test]
fn white_space_is_unicode_white_space() {
    for c in [' ', '\t', '\n', '\r', '\u{0B}', '\u{0C}', '\u{85}', '\u{A0}', '\u{3000}'] {
        assert!(is_space_char(c));
        assert!(c.is_whitespace());
    }
    for c in ['a', '0', '_', '\u{200B}', '\u{1F}'] {
        assert!(!is_space_char(c));
        assert!(!c.is_whitespace());
    }
}

#[test]
fn trimmed_agrees_with_std_trim() {
    for s in ["  key ", "key", "", "   ", "\t a b \n", "\u{A0}x\u{3000}", " a"] {
        assert_eq!(from_chars(&trimmed(&to_chars(s))), s.trim());
    }
}

#[test]
fn slice_takes_the_middle() {
    assert_eq!(from_chars(&slice_chars(&to_chars("abcdef"), 2, 4)), "cd");
    assert_eq!(from_chars(&slice_chars(&to_chars("abcdef"), 3, 3)), "");
}

#[test]
fn text_order_agrees_with_std_order() {
    let words = ["", "a", "ab", "abc", "b", "B", "a/chapter", "é", "z", "Z", "intro.txt", "10", "9"];
    for x in words {
        for y in words {
            assert_eq!(text_before_or_same(&to_chars(x), &to_chars(y)), x <= y, "{x:?} <= {y:?}");
        }
    }
}
