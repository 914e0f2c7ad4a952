use less_fp::pages::{Page, PageVec, PaginateError};

fn chars(s: &str) -> Vec<char> {
    s.chars().collect()
}

fn ranges(pv: &PageVec) -> Vec<(usize, usize)> {
    pv.pages_vec.iter().map(|p| (p.global_start_char_pos, p.global_stop_char_pos)).collect()
}

fn assert_partition(pv: &PageVec, len: usize) {
    let r = ranges(pv);
    if len == 0 {
        assert!(r.is_empty());
        return;
    }
    assert_eq!(r[0].0, 0);
    assert_eq!(r[r.len() - 1].1, len - 1);
    for k in 0..r.len() {
        assert!(r[k].0 <= r[k].1);
        if k + 1 < r.len() {
            assert_eq!(r[k].1 + 1, r[k + 1].0);
        }
    }
}

#[test]
fn newline_breaks_every_line_on_one_row() {
    let text = chars("ab\ncd\nef");
    let pv = PageVec::paginate(&text, (3, 1)).unwrap();
    assert_eq!(
        pv.pages_vec,
        vec![
            Page { global_start_char_pos: 0, global_stop_char_pos: 2 },
            Page { global_start_char_pos: 3, global_stop_char_pos: 5 },
            Page { global_start_char_pos: 6, global_stop_char_pos: 7 },
        ]
    );
    assert_eq!(pv.curr_page, 0);
}

#[test]
fn long_line_wraps_at_last_column() {
    let text = chars("abcdefg");
    let pv = PageVec::paginate(&text, (3, 1)).unwrap();
    assert_eq!(ranges(&pv), vec![(0, 2), (3, 5), (6, 6)]);
}

#[test]
fn trailing_newline_starts_last_page() {
    let text = chars("ab\n");
    let pv = PageVec::paginate(&text, (3, 1)).unwrap();
    assert_eq!(ranges(&pv), vec![(0, 1), (2, 2)]);
}

#[test]
fn rows_fill_before_page_break() {
    let text = chars("a\nb\nc\nd");
    let pv = PageVec::paginate(&text, (10, 2)).unwrap();
    assert_eq!(ranges(&pv), vec![(0, 3), (4, 6)]);
}

#[test]
fn single_cell_viewport_one_char_per_page() {
    let text = chars("xyz");
    let pv = PageVec::paginate(&text, (1, 1)).unwrap();
    assert_eq!(ranges(&pv), vec![(0, 0), (1, 1), (2, 2)]);
}

#[test]
fn empty_text_has_no_pages() {
    let text: Vec<char> = Vec::new();
    let pv = PageVec::paginate(&text, (80, 24)).unwrap();
    assert!(pv.pages_vec.is_empty());
}

#[test]
fn zero_dimension_is_invalid_viewport() {
    let text = chars("abc");
    assert_eq!(PageVec::paginate(&text, (0, 5)).err(), Some(PaginateError::InvalidViewport));
    assert_eq!(PageVec::paginate(&text, (5, 0)).err(), Some(PaginateError::InvalidViewport));
}

#[test]
fn pages_partition_many_texts_and_viewports() {
    let texts = ["", "a", "\n", "\n\n\n", "hello world\nthis is\n\na test\n", "abcdefghijklmnop", "x\n"];
    for t in texts.iter() {
        let text = chars(t);
        for cols in 1..6u16 {
            for rows in 1..4u16 {
                let pv = PageVec::paginate(&text, (cols, rows)).unwrap();
                assert_partition(&pv, text.len());
            }
        }
    }
}

#[test]
fn paginate_twice_gives_same_pages() {
    let text = chars("some text\nwith lines\nand more lines of text");
    let a = PageVec::paginate(&text, (7, 2)).unwrap();
    let b = PageVec::paginate(&text, (7, 2)).unwrap();
    assert_eq!(a.pages_vec, b.pages_vec);
    assert_eq!(a.curr_page, b.curr_page);
}

#[test]
fn find_page_for_every_index() {
    let text = chars("ab\ncd\nefghij\nk");
    let pv = PageVec::paginate(&text, (3, 1)).unwrap();
    for i in 0..text.len() {
        let k = pv.find_char_pos_in_pages(i);
        let p = pv.pages_vec[k];
        assert!(p.global_start_char_pos <= i && i <= p.global_stop_char_pos);
        let holders = pv
            .pages_vec
            .iter()
            .filter(|p| p.global_start_char_pos <= i && i <= p.global_stop_char_pos)
            .count();
        assert_eq!(holders, 1);
    }
    assert_eq!(pv.find_char_pos_in_pages(1000), 0);
}

#[test]
fn page_navigation_stays_in_bounds() {
    let text = chars("ab\ncd\nef");
    let mut pv = PageVec::paginate(&text, (3, 1)).unwrap();
    assert!(!pv.prev_page());
    assert!(pv.next_page());
    assert!(pv.next_page());
    assert!(!pv.next_page());
    assert_eq!(pv.get_curr_page().0, 2);
    assert_eq!(*pv.get_curr_page().1, Page { global_start_char_pos: 6, global_stop_char_pos: 7 });
    assert!(pv.prev_page());
    assert_eq!(pv.curr_page, 1);
    assert!(!pv.set_curr_page_num(3));
    assert_eq!(pv.curr_page, 1);
    assert!(pv.set_curr_page_num(0));
    assert_eq!(pv.curr_page, 0);
}
