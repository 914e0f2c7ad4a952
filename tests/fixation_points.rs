use less_fp::fixation::{calc_middle_start_end_point, is_inside_word_first_half, segment, Word};

fn chars(s: &str) -> Vec<char> {
    s.chars().collect()
}

fn w(start: usize, end: usize, middle_start: usize, middle_end: usize) -> Word {
    Word { start, end, middle_start, middle_end }
}

#[test]
fn segment_cat_short_odd_word() {
    assert_eq!(segment(&chars("cat")), vec![w(0, 3, 0, 1)]);
}

#[test]
fn segment_numeric_leading_word_fully_emphasized() {
    assert_eq!(segment(&chars("7up")), vec![w(0, 3, 0, 2)]);
}

#[test]
fn segment_single_char_word() {
    assert_eq!(segment(&chars("a")), vec![w(0, 1, 0, 0)]);
}

#[test]
fn middle_rule_by_length() {
    assert_eq!(calc_middle_start_end_point(0, 1), (0, 0));
    assert_eq!(calc_middle_start_end_point(0, 2), (0, 1));
    assert_eq!(calc_middle_start_end_point(0, 3), (0, 1));
    assert_eq!(calc_middle_start_end_point(0, 4), (1, 2));
    assert_eq!(calc_middle_start_end_point(0, 5), (2, 3));
    assert_eq!(calc_middle_start_end_point(0, 6), (2, 3));
    assert_eq!(calc_middle_start_end_point(10, 17), (13, 14));
}

#[test]
fn segment_several_words_and_separators() {
    let words = segment(&chars("  hi, reading\tfour!"));
    assert_eq!(words, vec![w(2, 4, 2, 3), w(6, 13, 9, 10), w(14, 18, 15, 16)]);
}

#[test]
fn segment_non_ascii_letters() {
    let words = segment(&chars("héllo wörld"));
    assert_eq!(words, vec![w(0, 5, 2, 3), w(6, 11, 8, 9)]);
}

#[test]
fn segment_empty_and_separators_only() {
    assert!(segment(&Vec::new()).is_empty());
    assert!(segment(&chars(" ,;\n")).is_empty());
}

#[test]
fn first_half_membership() {
    let words = segment(&chars("reading cat"));
    assert!(is_inside_word_first_half(&words, 0));
    assert!(is_inside_word_first_half(&words, 3));
    assert!(!is_inside_word_first_half(&words, 4));
    assert!(!is_inside_word_first_half(&words, 7));
    assert!(is_inside_word_first_half(&words, 8));
    assert!(!is_inside_word_first_half(&words, 9));
}
