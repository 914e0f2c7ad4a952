//! The browsing session: what each input does to the page table, the search
//! and the search line, and whether the screen must be drawn again.
use vstd::prelude::*;

use crate::codepoints::{nfc_of, string_of};
use crate::matching::matches_from;
use crate::pages::{PageVec, PaginateError, page_holds, pages_of};
use crate::search::{Search, occurrences_at, lemma_occurrences_in_text};

verus! {

/// A key, as the session tells keys apart.
#[derive(Clone, Copy, Debug, PartialEq, Eq, Structural)]
pub enum Key {
    Char(char),
    Enter,
    Backspace,
    Esc,
    Other,
}

/// One input event.
#[derive(Clone, Copy, Debug, PartialEq, Eq, Structural)]
pub enum Input {
    Key(Key),
    /// The viewport now has these columns and rows.
    Resize(u16, u16),
    Mouse,
}

/// What the search line is doing.
#[derive(Clone, Copy, Debug, PartialEq, Eq, Structural)]
pub enum SearchMode {
    NotInMode,
    EnteringSearchString,
    BrowsingInSearch,
}

/// What the caller must do after an event.
#[derive(Clone, Copy, Debug, PartialEq, Eq, Structural)]
pub enum Action {
    Nothing,
    Redraw,
    Quit,
}

/// The text being browsed, its pages, and the state of the search.
pub struct Session {
    pub text_vec: Vec<char>,
    pub pages_vec: PageVec,
    pub search_mode: SearchMode,
    pub search_string: Vec<char>,
    pub search_opt: Option<Search>,
}

/// The start of the current page of a non-empty table.
pub open spec fn page_start(pv: PageVec) -> int {
    pv.pages_vec@[pv.curr_page as int].global_start_char_pos as int
}

/// `s` has the cursor on the first occurrence that starts at or after `from`,
/// or on the first occurrence when none does.
pub open spec fn cursor_nearest(s: Search, from: int) -> bool {
    &&& (exists|k: int| 0 <= k < s.text_pos_vec@.len() && #[trigger] s.start_of(k) >= from) ==> {
        &&& s.start_of(s.curr_pos as int) >= from
        &&& forall|k: int| 0 <= k < s.curr_pos ==> #[trigger] s.start_of(k) < from
    }
    &&& !(exists|k: int| 0 <= k < s.text_pos_vec@.len() && #[trigger] s.start_of(k) >= from)
        ==> s.curr_pos == 0
}

impl Session {
    /// The pages tile the text, a browsing search has a search, and every
    /// occurrence starts inside the text.
    pub open spec fn wf(&self) -> bool {
        &&& self.pages_vec.wf()
        &&& self.pages_vec.covered_len() == self.text_vec@.len()
        &&& self.search_mode == SearchMode::BrowsingInSearch ==> self.search_opt is Some
        &&& match self.search_opt {
            Some(s) => s.wf() && forall|k: int|
                0 <= k < s.text_pos_vec@.len() ==> #[trigger] s.start_of(k) < self.text_vec@.len(),
            None => true,
        }
    }

    /// Starts browsing `text_vec` on its first page, for a viewport of
    /// `size.0` columns by `size.1` rows; a zero dimension is refused.
    pub fn new(text_vec: Vec<char>, size: (u16, u16)) -> (r: Result<Self, PaginateError>)
        ensures
            match r {
                Ok(s) => {
                    &&& s.wf()
                    &&& s.text_vec@ == text_vec@
                    &&& s.pages_vec.ranges() == pages_of(text_vec@, size.0 as int, size.1 as int)
                    &&& s.pages_vec.curr_page == 0
                    &&& s.search_mode == SearchMode::NotInMode
                    &&& s.search_string@.len() == 0
                    &&& s.search_opt is None
                },
                Err(e) => e == PaginateError::InvalidViewport && (size.0 == 0 || size.1 == 0),
            },
    {
        match PageVec::paginate(&text_vec, size) {
            Ok(pages_vec) => Ok(
                Session {
                    text_vec,
                    pages_vec,
                    search_mode: SearchMode::NotInMode,
                    search_string: Vec::new(),
                    search_opt: None,
                },
            ),
            Err(e) => Err(e),
        }
    }

    /// The code points of the current page.
    pub fn page_text(&self) -> (r: Vec<char>)
        requires
            self.wf(),
        ensures
            self.pages_vec.pages_vec@.len() == 0 ==> r@.len() == 0,
            self.pages_vec.pages_vec@.len() > 0 ==> r@ == self.text_vec@.subrange(
                page_start(self.pages_vec),
                self.pages_vec.pages_vec@[self.pages_vec.curr_page as int].global_stop_char_pos + 1,
            ),
    {
        if self.pages_vec.pages_vec.len() == 0 {
            return Vec::new();
        }
        let (_page_num, page) = self.pages_vec.get_curr_page();
        proof {
            let rs = self.pages_vec.ranges();
            let c = self.pages_vec.curr_page as int;
            assert(rs[c] == (page.global_start_char_pos as int, page.global_stop_char_pos as int));
            assert(rs[c].0 <= rs[c].1);
            crate::pages::lemma_tiles_bounds(rs, self.pages_vec.covered_len(), c);
        }
        let n = self.text_vec.len();
        let mut out: Vec<char> = Vec::new();
        let mut i: usize = page.global_start_char_pos;
        while i <= page.global_stop_char_pos
            invariant
                page.global_start_char_pos <= i <= page.global_stop_char_pos + 1,
                page.global_stop_char_pos < self.text_vec@.len(),
                n == self.text_vec@.len(),
                out@ == self.text_vec@.subrange(page.global_start_char_pos as int, i as int),
            decreases page.global_stop_char_pos + 1 - i,
        {
            out.push(self.text_vec[i]);
            i += 1;
            assert(out@ =~= self.text_vec@.subrange(page.global_start_char_pos as int, i as int));
        }
        out
    }

    /// Makes the page that holds `pos` the current page.
    fn show_page_of(&mut self, pos: usize)
        requires
            old(self).wf(),
            pos < old(self).text_vec@.len(),
        ensures
            final(self).wf(),
            final(self).text_vec == old(self).text_vec,
            final(self).search_mode == old(self).search_mode,
            final(self).search_string == old(self).search_string,
            final(self).search_opt == old(self).search_opt,
            final(self).pages_vec.pages_vec == old(self).pages_vec.pages_vec,
            page_holds(final(self).pages_vec.ranges(), final(self).pages_vec.curr_page as int, pos as int),
    {
        let page_num = self.pages_vec.find_char_pos_in_pages(pos);
        self.pages_vec.set_curr_page_num(page_num);
    }
}

/// `f` differs from `o` in its page table at most.
pub open spec fn same_but_pages(o: Session, f: Session) -> bool {
    &&& f.text_vec == o.text_vec
    &&& f.search_mode == o.search_mode
    &&& f.search_string == o.search_string
    &&& f.search_opt == o.search_opt
}

/// `f` differs from `o` in its search line at most.
pub open spec fn same_but_search_line(o: Session, f: Session) -> bool {
    &&& f.text_vec == o.text_vec
    &&& f.pages_vec == o.pages_vec
    &&& f.search_opt == o.search_opt
    &&& f.search_mode == o.search_mode
}

/// A resize to `columns` by `rows`: the text is paginated anew and the page
/// that holds the old current page's first code point becomes current; a
/// zero dimension changes nothing.
pub open spec fn resized(o: Session, f: Session, columns: u16, rows: u16, r: Action) -> bool {
    if columns == 0 || rows == 0 {
        r == Action::Nothing && f == o
    } else {
        &&& r == Action::Redraw
        &&& same_but_pages(o, f)
        &&& f.pages_vec.ranges() == pages_of(o.text_vec@, columns as int, rows as int)
        &&& o.pages_vec.pages_vec@.len() > 0 ==> page_holds(
            f.pages_vec.ranges(),
            f.pages_vec.curr_page as int,
            page_start(o.pages_vec),
        )
    }
}

/// The current page moves to `target` when there is such a page (and the
/// screen is drawn again); otherwise nothing changes.
pub open spec fn page_moved(o: Session, f: Session, r: Action, target: int) -> bool {
    if 0 <= target < o.pages_vec.pages_vec@.len() {
        &&& r == Action::Redraw
        &&& same_but_pages(o, f)
        &&& f.pages_vec.pages_vec == o.pages_vec.pages_vec
        &&& f.pages_vec.curr_page == target
    } else {
        r == Action::Nothing && f == o
    }
}

/// The search cursor moves to occurrence `target` when there is such an
/// occurrence, and the page that holds its start becomes current; otherwise
/// nothing changes.
pub open spec fn occurrence_moved(o: Session, f: Session, r: Action, target: int) -> bool {
    match o.search_opt {
        Some(s) => if 0 <= target < s.text_pos_vec@.len() {
            &&& r == Action::Redraw
            &&& f.text_vec == o.text_vec
            &&& f.search_mode == o.search_mode
            &&& f.search_string == o.search_string
            &&& f.search_opt == Some(Search { curr_pos: target as usize, text_pos_vec: s.text_pos_vec })
            &&& f.pages_vec.pages_vec == o.pages_vec.pages_vec
            &&& page_holds(f.pages_vec.ranges(), f.pages_vec.curr_page as int, s.start_of(target))
        } else {
            r == Action::Nothing && f == o
        },
        None => false,
    }
}

/// A key while the search line is closed or its result is browsed: `q` and
/// `a` turn the page back and forth, `/` opens an empty search line, and,
/// while browsing, `p` and `n` go to the previous and next occurrence. Other
/// keys change nothing.
pub open spec fn browse_key(o: Session, f: Session, k: Key, r: Action) -> bool {
    if k == Key::Char('q') {
        page_moved(o, f, r, o.pages_vec.curr_page - 1)
    } else if k == Key::Char('a') {
        page_moved(o, f, r, o.pages_vec.curr_page + 1)
    } else if k == Key::Char('/') {
        &&& r == Action::Redraw
        &&& f.text_vec == o.text_vec
        &&& f.pages_vec == o.pages_vec
        &&& f.search_opt == o.search_opt
        &&& f.search_mode == SearchMode::EnteringSearchString
        &&& f.search_string@.len() == 0
    } else if o.search_mode == SearchMode::BrowsingInSearch && k == Key::Char('p') {
        occurrence_moved(o, f, r, o.search_opt->Some_0.curr_pos - 1)
    } else if o.search_mode == SearchMode::BrowsingInSearch && k == Key::Char('n') {
        occurrence_moved(o, f, r, o.search_opt->Some_0.curr_pos + 1)
    } else {
        r == Action::Nothing && f == o
    }
}

/// The search line is closed with no search.
pub open spec fn search_dropped(o: Session, f: Session, r: Action) -> bool {
    &&& r == Action::Redraw
    &&& f.text_vec == o.text_vec
    &&& f.pages_vec == o.pages_vec
    &&& f.search_string == o.search_string
    &&& f.search_mode == SearchMode::NotInMode
    &&& f.search_opt is None
}

/// Enter on the search line: a search for an empty line or one without
/// occurrences closes the line; otherwise its result is browsed, from the
/// first occurrence at or after the current page's start (or the very
/// first), on the page that holds it.
pub open spec fn search_entered(o: Session, f: Session, r: Action) -> bool {
    let pat = nfc_of(o.search_string@);
    let m = matches_from(o.text_vec@, pat, 0);
    if o.search_string@.len() == 0 || m.len() == 0 {
        search_dropped(o, f, r)
    } else {
        &&& r == Action::Redraw
        &&& f.text_vec == o.text_vec
        &&& f.search_string == o.search_string
        &&& f.search_mode == SearchMode::BrowsingInSearch
        &&& f.pages_vec.pages_vec == o.pages_vec.pages_vec
        &&& f.search_opt matches Some(s) && {
            &&& occurrences_at(s.text_pos_vec@, m, pat.len() as int)
            &&& cursor_nearest(s, page_start(o.pages_vec))
            &&& page_holds(
                f.pages_vec.ranges(),
                f.pages_vec.curr_page as int,
                s.start_of(s.curr_pos as int),
            )
        }
    }
}

/// A key while the search line is open: a character is appended, Backspace
/// removes the last one, and Enter runs the search. Every key redraws.
pub open spec fn search_key(o: Session, f: Session, k: Key, r: Action) -> bool {
    match k {
        Key::Char(c) => r == Action::Redraw && same_but_search_line(o, f) && f.search_string@
            == o.search_string@.push(c),
        Key::Backspace => r == Action::Redraw && same_but_search_line(o, f) && f.search_string@
            == if o.search_string@.len() > 0 {
            o.search_string@.drop_last()
        } else {
            o.search_string@
        },
        Key::Enter => search_entered(o, f, r),
        _ => r == Action::Redraw && f == o,
    }
}

impl Session {
    /// Paginates anew for `columns` by `rows`, keeping the first code point of
    /// the current page in view.
    pub fn resize(&mut self, columns: u16, rows: u16) -> (r: Action)
        requires
            old(self).wf(),
        ensures
            final(self).wf(),
            resized(*old(self), *final(self), columns, rows, r),
    {
        let has_page = self.pages_vec.pages_vec.len() > 0;
        let mut cur_start_page_char_pos: usize = 0;
        if has_page {
            let (_page_num, page) = self.pages_vec.get_curr_page();
            cur_start_page_char_pos = page.global_start_char_pos;
            proof {
                let rs = self.pages_vec.ranges();
                let c = self.pages_vec.curr_page as int;
                assert(rs[c].0 == page.global_start_char_pos as int);
                crate::pages::lemma_tiles_bounds(rs, self.pages_vec.covered_len(), c);
            }
        }
        match PageVec::paginate(&self.text_vec, (columns, rows)) {
            Ok(pages_vec) => {
                self.pages_vec = pages_vec;
                if has_page {
                    self.show_page_of(cur_start_page_char_pos);
                }
                Action::Redraw
            },
            Err(_) => Action::Nothing,
        }
    }

    /// Handles a key while the search line is closed or browsed.
    pub fn browse_key(&mut self, key: Key) -> (r: Action)
        requires
            old(self).wf(),
            old(self).search_mode != SearchMode::EnteringSearchString,
        ensures
            final(self).wf(),
            browse_key(*old(self), *final(self), key, r),
    {
        if key == Key::Char('q') {
            if self.pages_vec.prev_page() {
                return Action::Redraw;
            }
            return Action::Nothing;
        }
        if key == Key::Char('a') {
            if self.pages_vec.next_page() {
                return Action::Redraw;
            }
            return Action::Nothing;
        }
        if key == Key::Char('/') {
            self.search_string = Vec::new();
            self.search_mode = SearchMode::EnteringSearchString;
            return Action::Redraw;
        }
        if self.search_mode == SearchMode::BrowsingInSearch && (key == Key::Char('p') || key
            == Key::Char('n')) {
            let ghost o = *self;
            let mut search_tmp = match self.search_opt.take() {
                Some(s) => s,
                None => {
                    return Action::Nothing;
                },
            };
            let moved = if key == Key::Char('p') {
                search_tmp.prev_pos()
            } else {
                search_tmp.next_pos()
            };
            if !moved {
                self.search_opt = Some(search_tmp);
                assert(*self == o);
                return Action::Nothing;
            }
            let (_ocurr_index, text_pos) = search_tmp.get_curr_pos();
            let start_pos = text_pos.start_pos;
            proof {
                let s0 = o.search_opt->Some_0;
                assert(search_tmp.text_pos_vec == s0.text_pos_vec);
                assert forall|k: int| 0 <= k < search_tmp.text_pos_vec@.len() implies #[trigger] search_tmp.start_of(k)
                    < self.text_vec@.len() by {
                    assert(search_tmp.start_of(k) == s0.start_of(k));
                }
                assert(start_pos == search_tmp.start_of(search_tmp.curr_pos as int));
            }
            self.search_opt = Some(search_tmp);
            self.show_page_of(start_pos);
            return Action::Redraw;
        }
        Action::Nothing
    }

    /// Runs the search for the search line.
    pub fn enter_search(&mut self) -> (r: Action)
        requires
            old(self).wf(),
        ensures
            final(self).wf(),
            search_entered(*old(self), *final(self), r),
    {
        if self.search_string.len() == 0 {
            self.search_opt = None;
            self.search_mode = SearchMode::NotInMode;
            return Action::Redraw;
        }
        let search_text = string_of(self.search_string.as_slice());
        match Search::find(&self.text_vec, search_text.as_str()) {
            Some(mut search_tmp) => {
                let ghost pat = nfc_of(self.search_string@);
                proof {
                    lemma_occurrences_in_text(self.text_vec@, pat, search_tmp.text_pos_vec@);
                    assert(search_tmp.text_pos_vec@[0].start_pos < self.text_vec@.len());
                }
                let (_page_num, page) = self.pages_vec.get_curr_page();
                let from = page.global_start_char_pos;
                let ghost found = search_tmp.text_pos_vec@;
                let search_next_pos = search_tmp.find_next_nearest_pos(from);
                assert(search_tmp.text_pos_vec@ == found);
                assert forall|k: int| 0 <= k < search_tmp.text_pos_vec@.len() implies #[trigger] search_tmp.start_of(k)
                    < self.text_vec@.len() by {
                    assert(found[k].start_pos < self.text_vec@.len());
                }
                proof {
                    let s0 = Search { curr_pos: 0, text_pos_vec: search_tmp.text_pos_vec };
                    assert forall|k: int| 0 <= k < found.len() implies #[trigger] search_tmp.start_of(k)
                        == s0.start_of(k) by {}
                    assert(page_start(self.pages_vec) == from);
                    if exists|k: int| 0 <= k < found.len() && #[trigger] search_tmp.start_of(k) >= from {
                        let k = choose|k: int| 0 <= k < found.len() && #[trigger] search_tmp.start_of(k) >= from;
                        assert(s0.start_of(k) >= from);
                    }
                    assert(cursor_nearest(search_tmp, from as int));
                }
                self.search_mode = SearchMode::BrowsingInSearch;
                self.search_opt = Some(search_tmp);
                self.show_page_of(search_next_pos);
                Action::Redraw
            },
            None => {
                self.search_opt = None;
                self.search_mode = SearchMode::NotInMode;
                Action::Redraw
            },
        }
    }

    /// Handles a key while the search line is open.
    pub fn search_key(&mut self, key: Key) -> (r: Action)
        requires
            old(self).wf(),
            old(self).search_mode == SearchMode::EnteringSearchString,
        ensures
            final(self).wf(),
            search_key(*old(self), *final(self), key, r),
    {
        match key {
            Key::Enter => self.enter_search(),
            Key::Backspace => {
                self.search_string.pop();
                Action::Redraw
            },
            Key::Char(c) => {
                self.search_string.push(c);
                Action::Redraw
            },
            _ => Action::Redraw,
        }
    }

    /// Handles one input event and says what the caller must do next: Esc
    /// quits, a resize paginates anew, and keys go to the page and search
    /// navigation or to the search line, whichever is active.
    pub fn handle_event(&mut self, event: Input) -> (r: Action)
        requires
            old(self).wf(),
        ensures
            final(self).wf(),
            event == Input::Mouse ==> r == Action::Nothing && *final(self) == *old(self),
            event == Input::Key(Key::Esc) ==> r == Action::Quit && *final(self) == *old(self),
            match event {
                Input::Resize(columns, rows) => resized(*old(self), *final(self), columns, rows, r),
                _ => true,
            },
            match event {
                Input::Key(k) => k != Key::Esc ==> if old(self).search_mode
                    == SearchMode::EnteringSearchString {
                    search_key(*old(self), *final(self), k, r)
                } else {
                    browse_key(*old(self), *final(self), k, r)
                },
                _ => true,
            },
    {
        match event {
            Input::Resize(columns, rows) => self.resize(columns, rows),
            Input::Mouse => Action::Nothing,
            Input::Key(key) => {
                if key == Key::Esc {
                    return Action::Quit;
                }
                if self.search_mode == SearchMode::EnteringSearchString {
                    self.search_key(key)
                } else {
                    self.browse_key(key)
                }
            },
        }
    }
}

} // verus!
