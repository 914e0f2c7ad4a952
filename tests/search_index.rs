use less_fp::search::{Search, TextPos};

fn chars(s: &str) -> Vec<char> {
    s.chars().collect()
}

#[test]
fn quick_brown_fox_occurrences() {
    let text = chars("the quick brown fox");
    let mut s = Search::find(&text, "o").unwrap();
    assert_eq!(
        s.text_pos_vec,
        vec![TextPos { start_pos: 12, end_pos: 12 }, TextPos { start_pos: 17, end_pos: 17 }]
    );
    assert_eq!(s.find_next_nearest_pos(0), 12);
    assert_eq!(s.curr_pos, 0);
    assert!(s.next_pos());
    assert_eq!(s.get_curr_pos().0, 1);
    assert!(!s.next_pos());
    assert_eq!(s.curr_pos, 1);
    assert!(s.prev_pos());
    assert!(!s.prev_pos());
    assert_eq!(s.curr_pos, 0);
}

#[test]
fn nearest_forward_and_wrap() {
    let text = chars("the quick brown fox");
    let mut s = Search::find(&text, "o").unwrap();
    assert_eq!(s.find_next_nearest_pos(13), 17);
    assert_eq!(s.curr_pos, 1);
    assert_eq!(s.find_next_nearest_pos(12), 12);
    assert_eq!(s.curr_pos, 0);
    assert!(s.next_pos());
    assert_eq!(s.find_next_nearest_pos(18), 12);
    assert_eq!(s.curr_pos, 0);
}

#[test]
fn search_absent_pattern_is_none() {
    let text = chars("abc");
    assert!(Search::find(&text, "z").is_none());
    assert!(Search::find(&text, "").is_none());
    assert!(Search::find_vec(&Vec::new(), &chars("a")).is_none());
}

#[test]
fn search_spans_multi_char_pattern() {
    let text = chars("aaaa xaa");
    let s = Search::find_vec(&text, &chars("aa")).unwrap();
    assert_eq!(
        s.text_pos_vec,
        vec![
            TextPos { start_pos: 0, end_pos: 1 },
            TextPos { start_pos: 2, end_pos: 3 },
            TextPos { start_pos: 6, end_pos: 7 },
        ]
    );
    assert!(s.is_inside_word(3));
    assert!(!s.is_inside_word(4));
    assert!(s.is_inside_word(7));
    assert!(s.is_inside_current_word(1));
    assert!(!s.is_inside_current_word(2));
}

#[test]
fn search_pattern_is_normalized() {
    let text = chars("caf\u{e9} au lait");
    let s = Search::find(&text, "e\u{301}").unwrap();
    assert_eq!(s.text_pos_vec, vec![TextPos { start_pos: 3, end_pos: 3 }]);
}
