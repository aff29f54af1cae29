use electrico::text::{
    byte_len, byte_offset, chars_eq, chars_of, contains, decimal_chars, ends_with, find_first, find_last, join_from,
    matches_at, push_all, push_str, replace_all_chars, signed_decimal_chars, split_chars, starts_with, str_is,
};

fn v(s: &str) -> Vec<char> {
    s.chars().collect()
}

#[test]
fn chars_and_comparisons() {
    assert_eq!(chars_of("aé"), vec!['a', 'é']);
    assert!(chars_eq(&v("ab"), &v("ab")));
    assert!(!chars_eq(&v("ab"), &v("abc")));
    assert!(str_is("x", "x"));
    assert!(!str_is("x", "y"));
}

#[test]
fn prefix_suffix_and_search() {
    assert!(starts_with(&v("hello"), &v("he")));
    assert!(!starts_with(&v("he"), &v("hello")));
    assert!(ends_with(&v("file.js"), &v(".js")));
    assert!(!ends_with(&v("file.json"), &v(".js")));
    assert!(contains(&v("a://b"), &v("://")));
    assert!(!contains(&v("a:/b"), &v("://")));
    assert!(matches_at(&v("abcabc"), &v("ca"), 2));
    assert!(!matches_at(&v("abc"), &v("bc"), 2));
    assert_eq!(find_first(&v("abcabc"), &v("bc")), Some(1));
    assert_eq!(find_last(&v("abcabc"), &v("bc")), Some(4));
    assert_eq!(find_first(&v("abc"), &v("x")), None);
    assert_eq!(find_last(&v("abc"), &v("x")), None);
}

#[test]
fn pushing() {
    let mut a = v("ab");
    push_all(&mut a, &v("cd"));
    push_str(&mut a, "é");
    assert_eq!(a, v("abcdé"));
}

#[test]
fn split_and_join_like_std() {
    for s in ["", "/", "a/b", "/a//b/", "abc"] {
        let parts = split_chars(&v(s), '/');
        let expected: Vec<Vec<char>> = s.split('/').map(v).collect();
        assert_eq!(parts, expected);
        assert_eq!(join_from(&parts, 0, '/'), v(s));
    }
    let parts = split_chars(&v("a/b/c/d"), '/');
    assert_eq!(join_from(&parts, 2, '/'), v("c/d"));
    assert_eq!(join_from(&parts, 4, '/'), v(""));
}

#[test]
fn decimals() {
    assert_eq!(decimal_chars(0), v("0"));
    assert_eq!(decimal_chars(9000), v("9000"));
    assert_eq!(decimal_chars(u64::MAX), v("18446744073709551615"));
    assert_eq!(signed_decimal_chars(-42), v("-42"));
    assert_eq!(signed_decimal_chars(i64::MIN), v("-9223372036854775808"));
    assert_eq!(signed_decimal_chars(7), v("7"));
}

#[test]
fn replace_like_std() {
    for (s, p, r) in [("a..b....c", "..", ""), ("aaa", "aa", "b"), ("xyz", "q", "w"), ("app:x app:", "app:", "*:1")] {
        assert_eq!(replace_all_chars(&v(s), &v(p), &v(r)), v(&s.replace(p, r)));
    }
}

#[test]
fn byte_offsets_of_characters() {
    let s = "aé€😀b";
    let cs = v(s);
    assert_eq!(byte_len(s), s.len());
    for (k, (i, _)) in s.char_indices().enumerate() {
        assert_eq!(byte_offset(&cs, k), i);
    }
    assert_eq!(byte_offset(&cs, cs.len()), s.len());
}
