use less_fp::pages::PaginateError;
use less_fp::session::{Action, Input, Key, SearchMode, Session};

fn chars(s: &str) -> Vec<char> {
    s.chars().collect()
}

fn current_start(s: &Session) -> usize {
    s.pages_vec.get_curr_page().1.global_start_char_pos
}

#[test]
fn session_rejects_zero_viewport() {
    assert_eq!(Session::new(chars("abc"), (0, 10)).err(), Some(PaginateError::InvalidViewport));
}

#[test]
fn session_pages_back_and_forth() {
    let mut s = Session::new(chars("ab\ncd\nef"), (3, 1)).unwrap();
    assert_eq!(s.page_text(), chars("ab\n"));
    assert_eq!(s.handle_event(Input::Key(Key::Char('q'))), Action::Nothing);
    assert_eq!(s.handle_event(Input::Key(Key::Char('a'))), Action::Redraw);
    assert_eq!(s.page_text(), chars("cd\n"));
    assert_eq!(s.handle_event(Input::Key(Key::Char('a'))), Action::Redraw);
    assert_eq!(s.handle_event(Input::Key(Key::Char('a'))), Action::Nothing);
    assert_eq!(s.page_text(), chars("ef"));
    assert_eq!(s.handle_event(Input::Key(Key::Char('q'))), Action::Redraw);
    assert_eq!(s.pages_vec.curr_page, 1);
    assert_eq!(s.handle_event(Input::Key(Key::Char('x'))), Action::Nothing);
    assert_eq!(s.handle_event(Input::Mouse), Action::Nothing);
    assert_eq!(s.handle_event(Input::Key(Key::Esc)), Action::Quit);
}

#[test]
fn session_search_and_browse() {
    let mut s = Session::new(chars("one\ntwo\nbone\nzone"), (10, 1)).unwrap();
    assert_eq!(s.handle_event(Input::Key(Key::Char('a'))), Action::Redraw);
    assert_eq!(s.handle_event(Input::Key(Key::Char('/'))), Action::Redraw);
    assert_eq!(s.search_mode, SearchMode::EnteringSearchString);
    for c in "onx".chars() {
        assert_eq!(s.handle_event(Input::Key(Key::Char(c))), Action::Redraw);
    }
    assert_eq!(s.handle_event(Input::Key(Key::Backspace)), Action::Redraw);
    assert_eq!(s.handle_event(Input::Key(Key::Char('e'))), Action::Redraw);
    assert_eq!(s.search_string, chars("one"));
    assert_eq!(s.handle_event(Input::Key(Key::Enter)), Action::Redraw);
    assert_eq!(s.search_mode, SearchMode::BrowsingInSearch);
    let search = s.search_opt.as_ref().unwrap();
    assert_eq!(search.text_pos_vec.len(), 3);
    assert_eq!(search.curr_pos, 1);
    assert_eq!(current_start(&s), 8);
    assert_eq!(s.handle_event(Input::Key(Key::Char('n'))), Action::Redraw);
    assert_eq!(current_start(&s), 13);
    assert_eq!(s.handle_event(Input::Key(Key::Char('n'))), Action::Nothing);
    assert_eq!(s.handle_event(Input::Key(Key::Char('p'))), Action::Redraw);
    assert_eq!(s.handle_event(Input::Key(Key::Char('p'))), Action::Redraw);
    assert_eq!(current_start(&s), 0);
    assert_eq!(s.handle_event(Input::Key(Key::Char('p'))), Action::Nothing);
}

#[test]
fn session_search_without_match_closes_line() {
    let mut s = Session::new(chars("hello"), (10, 2)).unwrap();
    s.handle_event(Input::Key(Key::Char('/')));
    s.handle_event(Input::Key(Key::Char('z')));
    assert_eq!(s.handle_event(Input::Key(Key::Enter)), Action::Redraw);
    assert_eq!(s.search_mode, SearchMode::NotInMode);
    assert!(s.search_opt.is_none());
    s.handle_event(Input::Key(Key::Char('/')));
    assert_eq!(s.handle_event(Input::Key(Key::Enter)), Action::Redraw);
    assert_eq!(s.search_mode, SearchMode::NotInMode);
}

#[test]
fn session_resize_keeps_position() {
    let mut s = Session::new(chars("abcdefghij"), (3, 1)).unwrap();
    s.handle_event(Input::Key(Key::Char('a')));
    s.handle_event(Input::Key(Key::Char('a')));
    assert_eq!(current_start(&s), 6);
    assert_eq!(s.handle_event(Input::Resize(5, 1)), Action::Redraw);
    assert_eq!(current_start(&s), 5);
    assert_eq!(s.pages_vec.pages_vec.len(), 2);
    assert_eq!(s.handle_event(Input::Resize(0, 1)), Action::Nothing);
    assert_eq!(s.pages_vec.pages_vec.len(), 2);
}
