use less_fp::text::{StringUtils, StringUtilsSlices, StringUtilsVecChars, StringUtilsVecCharsV2};

fn chars(s: &str) -> Vec<char> {
    s.chars().collect()
}

#[test]
fn find_vec_returns_first_match_in_range() {
    let t = chars("abcabc");
    assert_eq!(t.find_vec(&chars("bc"), 0, None), Some(1));
    assert_eq!(t.find_vec(&chars("bc"), 2, None), Some(4));
    assert_eq!(t.find_vec(&chars("bc"), 2, Some(3)), None);
    assert_eq!(t.find_vec(&chars("bc"), 0, Some(1)), Some(1));
}

#[test]
fn find_vec_empty_or_too_long_pattern_has_no_match() {
    let t = chars("abc");
    assert_eq!(t.find_vec(&Vec::new(), 0, None), None);
    assert_eq!(t.find_vec(&chars("abcd"), 0, None), None);
    assert_eq!(t.find_vec(&chars("cd"), 0, None), None);
    let empty: Vec<char> = Vec::new();
    assert_eq!(empty.find_vec(&chars("a"), 0, None), None);
}

#[test]
fn find_vec_all_is_non_overlapping() {
    let t = chars("aaaa");
    assert_eq!(t.find_vec_all(&chars("aa")), vec![0, 2]);
    let t = chars("aaa");
    assert_eq!(t.find_vec_all(&chars("aa")), vec![0]);
    assert_eq!(t.find_vec_all(&chars("b")), Vec::<usize>::new());
}

#[test]
fn find_str_all_addresses_code_points() {
    let t = chars("déjà vu, déjà");
    assert_eq!(t.find_str_all("déjà"), vec![0, 9]);
}

#[test]
fn find_str_normalizes_pattern() {
    let t = chars("caf\u{e9}");
    assert_eq!(t.find_str("e\u{301}", 0, None), Some(3));
}

#[test]
fn replace_all_ab_leaves_no_ab() {
    let mut t = chars("aabxabbab");
    assert_eq!(t.replace_vec_all(&chars("ab"), &chars("XYZ")), Some(3));
    assert_eq!(t, chars("aXYZxXYZbXYZ"));
    assert!(t.find_vec_all(&chars("ab")).is_empty());
}

#[test]
fn replace_all_without_match_keeps_text() {
    let mut t = chars("hello");
    assert_eq!(t.replace_str_all("xy", "z"), None);
    assert_eq!(t, chars("hello"));
}

#[test]
fn replace_str_all_line_endings() {
    let mut t = chars("a\r\nb\r\n");
    assert_eq!(t.replace_str_all("\r\n", "\n"), Some(2));
    assert_eq!(t, chars("a\nb\n"));
}

#[test]
fn replace_first_match_in_range() {
    let mut t = chars("xabab");
    assert_eq!(t.replace_vec(&chars("ab"), &chars("Z"), 2, None), Some(3));
    assert_eq!(t, chars("xabZ"));
    let mut t = chars("xab");
    assert_eq!(t.replace_str("ab", "Z", 0, None), Some(1));
    assert_eq!(t, chars("xZ"));
    assert_eq!(t.replace_str("q", "Z", 0, None), None);
    assert_eq!(t, chars("xZ"));
}

#[test]
fn split_keeps_non_empty_pieces() {
    let t = chars(",a,b,,c,");
    let pieces: Vec<String> = t.split_str(",").iter().map(|p| p.iter().collect()).collect();
    assert_eq!(pieces, vec!["a", "b", "c"]);
    let t = chars("one::two");
    let pieces: Vec<String> = t.split_vec(&chars("::")).iter().map(|p| p.iter().collect()).collect();
    assert_eq!(pieces, vec!["one", "two"]);
}

#[test]
fn split_without_delimiter_yields_nothing() {
    let t = chars("abc");
    assert!(t.split_str(",").is_empty());
}

#[test]
fn trim_variants() {
    let mut t = chars(" \t ab c \n");
    t.trim_start();
    assert_eq!(t, chars("ab c \n"));
    let mut t = chars(" \t ab c \n");
    t.trim_end();
    assert_eq!(t, chars(" \t ab c"));
    let mut t = chars(" \t ab c \n");
    t.trim();
    assert_eq!(t, chars("ab c"));
    let mut t = chars("abc");
    t.trim_start();
    assert_eq!(t, chars("abc"));
    let mut t = chars("   ");
    t.trim();
    assert!(t.is_empty());
    let mut t = chars("\u{3000}x\u{a0}");
    t.trim();
    assert_eq!(t, chars("x"));
}

#[test]
fn insert_rejects_index_at_end() {
    let mut t = chars("abc");
    assert!(t.insert_str("X", 3).is_err());
    assert_eq!(t, chars("abc"));
    let mut empty: Vec<char> = Vec::new();
    assert!(empty.insert_vec(&chars("X"), 0).is_err());
}

#[test]
fn insert_before_index() {
    let mut t = chars("abc");
    assert!(t.insert_str("XY", 1).is_ok());
    assert_eq!(t, chars("aXYbc"));
    let mut t = chars("abc");
    assert!(t.insert_vec(&chars("Z"), 0).is_ok());
    assert_eq!(t, chars("Zabc"));
}

#[test]
fn push_operations() {
    let mut t = chars("b");
    t.push_str("c");
    t.push_str_start("a");
    t.push_vec(&chars("d"));
    t.push_vec_start(&chars("_"));
    assert_eq!(t, chars("_abcd"));
    let mut t = chars("x");
    t.push_str("e\u{301}");
    assert_eq!(t, vec!['x', '\u{e9}']);
}

#[test]
fn join_concatenates() {
    let a = chars("ab");
    let b = chars("");
    let c = chars("cd");
    let parts: Vec<&[char]> = vec![&a, &b, &c];
    assert_eq!(<Vec<char> as StringUtilsVecCharsV2>::join_vec(&parts), chars("abcd"));
    assert_eq!(<Vec<char> as StringUtilsVecCharsV2>::join_str(&["x", "", "yz"]), chars("xyz"));
}

#[test]
fn equality_checks() {
    let t = chars("abc");
    assert!(t.eq_vec(&chars("abc")));
    assert!(!t.eq_vec(&chars("abd")));
    assert!(!t.eq_vec(&chars("ab")));
    assert!(t.eq_str("abc"));
    assert!(!t.eq_str("abcd"));
}

#[test]
fn prefix_suffix_contains() {
    let t = chars("hello world");
    assert!(t.start_with_str("hello"));
    assert!(!t.start_with_vec(&chars("world")));
    assert!(t.ends_with_str("world"));
    assert!(!t.ends_with_vec(&chars("hello")));
    assert!(!t.start_with_str("hello world and more"));
    assert!(t.contains_str("o w"));
    assert!(!t.contains_vec(&chars("xyz")));
}

#[test]
fn map_str_replaces_in_order() {
    let mut t = chars("a-b-c");
    let counts = t.map_str(&[("-", "+"), ("+", "="), ("q", "z")]);
    assert_eq!(counts, vec![2, 2, 0]);
    assert_eq!(t, chars("a=b=c"));
}

#[test]
fn get_vec_chars_composes() {
    assert_eq!("e\u{301}".get_vec_chars(), vec!['\u{e9}']);
    assert_eq!("abc".get_vec_chars(), chars("abc"));
    assert!("".get_vec_chars().is_empty());
}

#[test]
fn substring_and_slice_count_code_points() {
    let s = "héllo wörld";
    assert_eq!(s.substring(1, 4), "éllo");
    assert_eq!(s.substring(6, 100), "wörld");
    assert_eq!(s.substring(50, 2), "");
    assert_eq!(s.slice(7..9), "ör");
}

#[test]
fn vec_and_slice_to_string() {
    let t = chars("héllo");
    assert_eq!(StringUtilsVecChars::to_string(&t), "héllo");
    let mut buf = String::from("old");
    assert_eq!(StringUtilsVecChars::to_string_buf(&t, &mut buf), "héllo");
    assert_eq!(buf, "héllo");
    let sl: &[char] = &t[1..3];
    assert_eq!(StringUtilsSlices::to_string(sl), "él");
    let mut buf2 = String::new();
    assert_eq!(StringUtilsSlices::to_string_buf(sl, &mut buf2), "él");
    assert_eq!(sl.to_vec_chars(), vec!['é', 'l']);
}
