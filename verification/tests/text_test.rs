use wally::text::{chars_of, decimal_string, last_piece, replace_all, split_char, str_equal, string_of_range};

#[test]
fn decimal_string_writes_digits() {
    assert_eq!(decimal_string(0), "0");
    assert_eq!(decimal_string(7), "7");
    assert_eq!(decimal_string(10), "10");
    assert_eq!(decimal_string(100), "100");
    assert_eq!(decimal_string(1234567890), "1234567890");
    assert_eq!(decimal_string(u64::MAX), "18446744073709551615");
}

#[test]
fn chars_of_keeps_unicode_characters() {
    assert_eq!(chars_of("añb"), vec!['a', 'ñ', 'b']);
    assert_eq!(chars_of(""), Vec::<char>::new());
}

#[test]
fn string_of_range_takes_a_slice_of_characters() {
    let cs = vec!['/', 'a', 'b', 'c'];
    assert_eq!(string_of_range(&cs, 1, 4), "abc");
    assert_eq!(string_of_range(&cs, 2, 2), "");
}

#[test]
fn replace_all_replaces_every_occurrence() {
    assert_eq!(replace_all("swww img {{path}}", "{{path}}", "/tmp/a.jpg"), "swww img /tmp/a.jpg");
    assert_eq!(replace_all("{{path}} {{path}}", "{{path}}", "x"), "x x");
    assert_eq!(replace_all("no placeholder", "{{path}}", "x"), "no placeholder");
    assert_eq!(replace_all("aaa", "aa", "b"), "ba");
    assert_eq!(replace_all("", "a", "b"), "");
    assert_eq!(replace_all("abc", "abc", ""), "");
}

#[test]
fn replace_all_agrees_with_std() {
    for (s, p, r) in [("a_master1200b", "_master1200", ""), ("xyxyx", "xyx", "-"), ("ab", "abc", "z")] {
        assert_eq!(replace_all(s, p, r), s.replace(p, r));
    }
}

#[test]
fn split_char_splits_at_every_separator() {
    assert_eq!(split_char("a b c", ' '), vec!["a", "b", "c"]);
    assert_eq!(split_char("", ' '), vec![""]);
    assert_eq!(split_char("a//b/", '/'), vec!["a", "", "b", ""]);
    assert_eq!(split_char("/x", '/'), vec!["", "x"]);
}

#[test]
fn joining_a_split_gives_the_string_back() {
    for s in ["a//b/", "", "/", "no separators", "  two  spaces "] {
        let parts = split_char(s, '/');
        assert_eq!(parts.join("/"), s);
        assert!(parts.iter().all(|p| !p.contains('/')));
        let words = split_char(s, ' ');
        assert_eq!(words.join(" "), s);
    }
}

#[test]
fn last_piece_and_str_equal() {
    assert_eq!(last_piece("/w/a.jpg", '/'), "a.jpg");
    assert_eq!(last_piece("plain", '/'), "plain");
    assert_eq!(last_piece("/w/", '/'), "");
    assert!(str_equal(".wally-meta", ".wally-meta"));
    assert!(!str_equal(".wally-meta", ".wally-met"));
    assert!(!str_equal("ab", "ac"));
    assert!(str_equal("", ""));
}
