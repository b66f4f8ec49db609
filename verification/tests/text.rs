use registry_proxy::text::{
    bytes_occur_at, bytes_occur_in, chars_occur_at, chars_occur_in, chars_of, decimal, replace,
};

#[test]
fn characters_of_a_string() {
    assert_eq!(chars_of("héllo"), vec!['h', 'é', 'l', 'l', 'o']);
    assert_eq!(chars_of(""), Vec::<char>::new());
}

#[test]
fn replace_single_occurrence() {
    assert_eq!(replace("a-b-c", "b", "x"), "a-x-c");
}

#[test]
fn replace_every_occurrence() {
    assert_eq!(replace("abcabcabc", "bc", "-"), "a-a-a-");
    assert_eq!(replace("aaaa", "a", "bb"), "bbbbbbbb");
}

#[test]
fn replace_does_not_overlap() {
    assert_eq!(replace("aaa", "aa", "b"), "ba");
    assert_eq!(replace("aaaa", "aa", "b"), "bb");
    assert_eq!(replace("ababa", "aba", "x"), "xba");
}

#[test]
fn replace_does_not_rescan_what_it_put() {
    assert_eq!(replace("ab", "b", "bb"), "abb");
    assert_eq!(replace("aabb", "ab", ""), "ab");
}

#[test]
fn replace_without_occurrence_keeps_text() {
    assert_eq!(replace("hello", "xyz", "q"), "hello");
    assert_eq!(replace("", "a", "b"), "");
    assert_eq!(replace("ab", "abc", "x"), "ab");
}

#[test]
fn replace_whole_text() {
    assert_eq!(replace("abc", "abc", "xyz"), "xyz");
    assert_eq!(replace("abc", "abc", ""), "");
}

#[test]
fn replace_empty_pattern_goes_between_characters() {
    assert_eq!(replace("abc", "", "-"), "-a-b-c-");
    assert_eq!(replace("", "", "x"), "x");
}

#[test]
fn replace_agrees_with_std() {
    let cases = [
        ("https://registry.npmjs.org/left-pad/-/left-pad-1.0.0.tgz", "https://registry.npmjs.org/", "http://localhost:5000/"),
        ("aaaaa", "aa", "a"),
        ("héllo wörld", "ö", "oe"),
        ("abc", "", "é"),
        ("", "", ""),
        ("xx", "x", ""),
        ("mississippi", "ssi", "S"),
        ("mississippi", "issi", "I"),
    ];
    for (text, from, to) in cases {
        assert_eq!(replace(text, from, to), text.replace(from, to));
    }
}

#[test]
fn decimal_numerals() {
    assert_eq!(decimal(0), b"0".to_vec());
    assert_eq!(decimal(7), b"7".to_vec());
    assert_eq!(decimal(9), b"9".to_vec());
    assert_eq!(decimal(10), b"10".to_vec());
    assert_eq!(decimal(99), b"99".to_vec());
    assert_eq!(decimal(100), b"100".to_vec());
    assert_eq!(decimal(12345), b"12345".to_vec());
    assert_eq!(decimal(usize::MAX), usize::MAX.to_string().into_bytes());
}

#[test]
fn characters_occur_at_a_place() {
    let text = chars_of("content-type");
    assert!(chars_occur_at(&text, &chars_of("content-"), 0));
    assert!(chars_occur_at(&text, &chars_of("type"), 8));
    assert!(!chars_occur_at(&text, &chars_of("type"), 7));
    assert!(!chars_occur_at(&text, &chars_of("type"), 9));
    assert!(chars_occur_at(&text, &chars_of(""), 12));
    assert!(!chars_occur_at(&text, &chars_of(""), 13));
    assert!(!chars_occur_at(&text, &chars_of("content-type-x"), 0));
}

#[test]
fn characters_occur_somewhere() {
    let text = chars_of("set-cookie");
    assert!(chars_occur_in(&text, &chars_of("cookie")));
    assert!(chars_occur_in(&text, &chars_of("set")));
    assert!(chars_occur_in(&text, &chars_of("")));
    assert!(!chars_occur_in(&text, &chars_of("cookies")));
    assert!(!chars_occur_in(&chars_of(""), &chars_of("a")));
    assert!(chars_occur_in(&chars_of(""), &chars_of("")));
}

#[test]
fn bytes_occur() {
    assert!(bytes_occur_at(b"application/json", b"json", 12));
    assert!(!bytes_occur_at(b"application/json", b"json", 11));
    assert!(!bytes_occur_at(b"application/json", b"json", usize::MAX));
    assert!(bytes_occur_in(b"application/json; charset=utf-8", b"json"));
    assert!(bytes_occur_in(b"application/vnd.npm.install-v1+json", b"json"));
    assert!(!bytes_occur_in(b"application/octet-stream", b"json"));
    assert!(!bytes_occur_in(b"jso", b"json"));
    assert!(bytes_occur_in(b"", b""));
}
