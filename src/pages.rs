//! Pagination: tiling a code-point buffer into screen-sized pages.
use vstd::prelude::*;

verus! {

/// One page: the inclusive range of global code-point indices it shows.
#[derive(Clone, Copy, Debug, PartialEq, Eq, Structural)]
pub struct Page {
    pub global_start_char_pos: usize,
    pub global_stop_char_pos: usize,
}

/// Why a page table could not be built.
#[derive(Clone, Copy, Debug, PartialEq, Eq, Structural)]
pub enum PaginateError {
    /// A viewport dimension is zero.
    InvalidViewport,
}

/// The state of the walk over the text: the cursor's column and row on the
/// screen, where the open page starts, and the pages closed so far.
pub struct PageScan {
    pub column: int,
    pub row: int,
    pub start: int,
    pub pages: Seq<(int, int)>,
}

/// Closes the open page at `i` (inclusive); the next page starts after it.
pub open spec fn close_at(st: PageScan, i: int) -> PageScan {
    PageScan { column: 0, row: 0, start: i + 1, pages: st.pages.push((st.start, i)) }
}

/// A newline at `i` fills the last row. It ends the open page, and the next
/// page starts after it; when it is the last code point of a text of length
/// `n`, the next page starts at the newline itself.
pub open spec fn close_at_newline(st: PageScan, i: int, n: int) -> PageScan {
    if i + 1 < n {
        close_at(st, i)
    } else if st.start < i {
        PageScan { column: 0, row: 0, start: i, pages: st.pages.push((st.start, i - 1)) }
    } else {
        PageScan { column: 0, row: 0, ..st }
    }
}

/// One step of the walk: code point `c` at index `i` of a text of length
/// `n`, on a viewport of `columns` by `rows`.
pub open spec fn scan_step(st: PageScan, c: char, i: int, n: int, columns: int, rows: int) -> PageScan {
    if c != '\n' {
        if st.column < columns - 1 {
            PageScan { column: st.column + 1, ..st }
        } else if st.row == rows - 1 {
            close_at(st, i)
        } else {
            PageScan { column: 0, row: st.row + 1, ..st }
        }
    } else if st.row == rows - 1 {
        close_at_newline(st, i, n)
    } else {
        PageScan { column: 0, row: st.row + 1, ..st }
    }
}

/// The state of the walk after the first `k` code points of `text`.
pub open spec fn scan(text: Seq<char>, columns: int, rows: int, k: int) -> PageScan
    decreases k,
{
    if k <= 0 {
        PageScan { column: 0, row: 0, start: 0, pages: seq![] }
    } else {
        scan_step(
            scan(text, columns, rows, k - 1),
            text[k - 1],
            k - 1,
            text.len() as int,
            columns,
            rows,
        )
    }
}

/// The pages of `text` on a viewport of `columns` by `rows`: those that the
/// walk closed, then the open one, which ends at the last code point.
pub open spec fn pages_of(text: Seq<char>, columns: int, rows: int) -> Seq<(int, int)> {
    let st = scan(text, columns, rows, text.len() as int);
    if st.start < text.len() {
        st.pages.push((st.start, text.len() - 1))
    } else {
        st.pages
    }
}

/// The pages tile `[0, upto)`: in ascending order, each non-empty, the first
/// starting at 0, each starting right after the one before, the last ending
/// at `upto - 1`; no pages at all exactly when `upto` is 0.
pub open spec fn tiles(pages: Seq<(int, int)>, upto: int) -> bool {
    &&& (pages.len() == 0 <==> upto == 0)
    &&& pages.len() > 0 ==> pages[0].0 == 0 && pages.last().1 == upto - 1
    &&& forall|k: int| 0 <= k < pages.len() ==> #[trigger] pages[k].0 <= pages[k].1
    &&& forall|k: int| 0 <= k < pages.len() - 1 ==> #[trigger] pages[k].1 + 1 == pages[k + 1].0
}

/// Page `k` holds index `i`.
pub open spec fn page_holds(pages: Seq<(int, int)>, k: int, i: int) -> bool {
    0 <= k < pages.len() && pages[k].0 <= i <= pages[k].1
}

/// The ranges of a vector of pages.
pub open spec fn page_ranges(pages: Seq<Page>) -> Seq<(int, int)> {
    pages.map_values(|p: Page| (p.global_start_char_pos as int, p.global_stop_char_pos as int))
}

/// What the walk keeps true: the pages closed so far tile `[0, start)`, the
/// open page starts at or before the next code point, and the cursor is on
/// the screen.
pub open spec fn scan_inv(st: PageScan, k: int, columns: int, rows: int) -> bool {
    &&& tiles(st.pages, st.start)
    &&& 0 <= st.start <= k
    &&& 0 <= st.column < columns
    &&& 0 <= st.row < rows
}

proof fn lemma_tiles_push(pages: Seq<(int, int)>, upto: int, last: int)
    requires
        tiles(pages, upto),
        0 <= upto <= last,
    ensures
        tiles(pages.push((upto, last)), last + 1),
{
    let q = pages.push((upto, last));
    assert forall|k: int| 0 <= k < q.len() - 1 implies #[trigger] q[k].1 + 1 == q[k + 1].0 by {
        if k < pages.len() - 1 {
            assert(q[k] == pages[k] && q[k + 1] == pages[k + 1]);
        }
    }
    assert forall|k: int| 0 <= k < q.len() implies #[trigger] q[k].0 <= q[k].1 by {
        if k < pages.len() {
            assert(q[k] == pages[k]);
        }
    }
}

proof fn lemma_scan_inv(text: Seq<char>, columns: int, rows: int, k: int)
    requires
        columns >= 1,
        rows >= 1,
        0 <= k <= text.len(),
    ensures
        scan_inv(scan(text, columns, rows, k), k, columns, rows),
    decreases k,
{
    if k > 0 {
        let st = scan(text, columns, rows, k - 1);
        lemma_scan_inv(text, columns, rows, k - 1);
        let i = k - 1;
        if st.start <= i {
            lemma_tiles_push(st.pages, st.start, i);
            if st.start < i {
                lemma_tiles_push(st.pages, st.start, i - 1);
            }
        }
    }
}

/// For a viewport of at least one column and one row, the pages of any text
/// partition its indices: ascending, without gaps or overlaps, from the first
/// index to the last.
pub proof fn lemma_pages_partition(text: Seq<char>, columns: int, rows: int)
    requires
        columns >= 1,
        rows >= 1,
    ensures
        tiles(pages_of(text, columns, rows), text.len() as int),
{
    let n = text.len() as int;
    lemma_scan_inv(text, columns, rows, n);
    let st = scan(text, columns, rows, n);
    if st.start < n {
        lemma_tiles_push(st.pages, st.start, n - 1);
    }
}

/// In pages that tile `[0, upto)`, each index below `upto` lies in exactly
/// one page.
pub proof fn lemma_unique_page(pages: Seq<(int, int)>, upto: int, i: int)
    requires
        tiles(pages, upto),
        0 <= i < upto,
    ensures
        exists|k: int| page_holds(pages, k, i),
        forall|k1: int, k2: int|
            page_holds(pages, k1, i) && page_holds(pages, k2, i) ==> k1 == k2,
{
    lemma_tiles_ordered(pages, upto);
    let w = choose_page(pages, upto, i, 0);
    assert(page_holds(pages, w, i));
}

/// A page of tiling pages lies inside `[0, upto)`.
pub proof fn lemma_tiles_bounds(pages: Seq<(int, int)>, upto: int, k: int)
    requires
        tiles(pages, upto),
        0 <= k < pages.len(),
    ensures
        0 <= pages[k].0 <= pages[k].1 < upto,
{
    lemma_tiles_ordered(pages, upto);
}

/// In tiling pages, a later page starts after an earlier one ends.
proof fn lemma_tiles_ordered(pages: Seq<(int, int)>, upto: int)
    requires
        tiles(pages, upto),
    ensures
        forall|a: int, b: int| 0 <= a < b < pages.len() ==> #[trigger] pages[a].1 < #[trigger] pages[b].0,
        forall|a: int| 0 <= a < pages.len() ==> pages[a].0 >= 0 && #[trigger] pages[a].1 < upto,
{
    assert forall|a: int, b: int| 0 <= a < b < pages.len() implies #[trigger] pages[a].1 < #[trigger] pages[b].0 by {
        lemma_tiles_gap(pages, upto, a, b);
    }
    assert forall|a: int| 0 <= a < pages.len() implies pages[a].0 >= 0 && #[trigger] pages[a].1 < upto by {
        if a > 0 {
            lemma_tiles_gap(pages, upto, 0, a);
        }
        if a < pages.len() - 1 {
            lemma_tiles_gap(pages, upto, a, pages.len() - 1);
        }
    }
}

proof fn lemma_tiles_gap(pages: Seq<(int, int)>, upto: int, a: int, b: int)
    requires
        tiles(pages, upto),
        0 <= a < b < pages.len(),
    ensures
        pages[a].1 < pages[b].0,
    decreases b - a,
{
    assert(pages[b - 1].1 + 1 == pages[b].0);
    if a < b - 1 {
        lemma_tiles_gap(pages, upto, a, b - 1);
        assert(pages[b - 1].0 <= pages[b - 1].1);
    }
}

/// The page that holds `i`, found by walking on from page `k`.
proof fn choose_page(pages: Seq<(int, int)>, upto: int, i: int, k: int) -> (w: int)
    requires
        tiles(pages, upto),
        0 <= i < upto,
        0 <= k < pages.len(),
        pages[k].0 <= i,
    ensures
        page_holds(pages, w, i),
    decreases pages.len() - k,
{
    if pages[k].1 < i {
        assert(k < pages.len() - 1);
        assert(pages[k].1 + 1 == pages[k + 1].0);
        choose_page(pages, upto, i, k + 1)
    } else {
        k
    }
}

/// The page table of a text: its pages, in order, and the current page.
pub struct PageVec {
    pub curr_page: usize,
    pub pages_vec: Vec<Page>,
}

impl PageVec {
    /// The ranges of the pages.
    pub open spec fn ranges(&self) -> Seq<(int, int)> {
        page_ranges(self.pages_vec@)
    }

    /// How many code points the pages cover.
    pub open spec fn covered_len(&self) -> int {
        if self.pages_vec@.len() == 0 {
            0
        } else {
            self.pages_vec@.last().global_stop_char_pos + 1
        }
    }

    /// The pages tile the text, and the current page is one of them (0 when
    /// there are none).
    pub open spec fn wf(&self) -> bool {
        &&& tiles(self.ranges(), self.covered_len())
        &&& self.pages_vec@.len() > 0 ==> self.curr_page < self.pages_vec@.len()
        &&& self.pages_vec@.len() == 0 ==> self.curr_page == 0
    }

    /// Tiles `text_vec` into pages for a viewport of `new_size.0` columns by
    /// `new_size.1` rows, starting on the first page. A zero dimension is
    /// refused.
    pub fn paginate(text_vec: &Vec<char>, new_size: (u16, u16)) -> (r: Result<Self, PaginateError>)
        ensures
            match r {
                Ok(pv) => {
                    &&& new_size.0 >= 1 && new_size.1 >= 1
                    &&& pv.ranges() == pages_of(text_vec@, new_size.0 as int, new_size.1 as int)
                    &&& pv.curr_page == 0
                    &&& pv.covered_len() == text_vec@.len()
                    &&& pv.wf()
                },
                Err(e) => e == PaginateError::InvalidViewport && (new_size.0 == 0 || new_size.1
                    == 0),
            },
    {
        let (columns, rows) = new_size;
        if columns < 1 || rows < 1 {
            return Err(PaginateError::InvalidViewport);
        }
        let ghost cols = columns as int;
        let ghost rws = rows as int;
        let max_colum: u16 = columns - 1;
        let max_row: u16 = rows - 1;
        let n = text_vec.len();
        let mut cur_row: u16 = 0;
        let mut cur_column: u16 = 0;
        let mut start: usize = 0;
        let mut pages_vec: Vec<Page> = Vec::new();
        let mut i: usize = 0;
        while i < n
            invariant
                n == text_vec@.len(),
                i <= n,
                cols == columns as int,
                rws == rows as int,
                columns >= 1,
                rows >= 1,
                max_colum == columns - 1,
                max_row == rows - 1,
                cur_column as int == scan(text_vec@, cols, rws, i as int).column,
                cur_row as int == scan(text_vec@, cols, rws, i as int).row,
                start as int == scan(text_vec@, cols, rws, i as int).start,
                page_ranges(pages_vec@) == scan(text_vec@, cols, rws, i as int).pages,
            decreases n - i,
        {
            proof {
                lemma_scan_inv(text_vec@, cols, rws, i as int);
            }
            let ghost before = pages_vec@;
            let c = text_vec[i];
            if c != '\n' {
                if cur_column < max_colum {
                    cur_column += 1;
                } else {
                    if cur_row == max_row {
                        pages_vec.push(Page { global_start_char_pos: start, global_stop_char_pos: i });
                        assert(page_ranges(pages_vec@) =~= page_ranges(before).push((start as int, i as int)));
                        start = i + 1;
                        cur_row = 0;
                    } else {
                        cur_row += 1;
                    }
                    cur_column = 0;
                }
            } else {
                if cur_row == max_row {
                    if i + 1 < n {
                        pages_vec.push(Page { global_start_char_pos: start, global_stop_char_pos: i });
                        assert(page_ranges(pages_vec@) =~= page_ranges(before).push((start as int, i as int)));
                        start = i + 1;
                    } else if start < i {
                        pages_vec.push(
                            Page { global_start_char_pos: start, global_stop_char_pos: i - 1 },
                        );
                        assert(page_ranges(pages_vec@) =~= page_ranges(before).push((start as int, i - 1)));
                        start = i;
                    }
                    cur_row = 0;
                } else {
                    cur_row += 1;
                }
                cur_column = 0;
            }
            i += 1;
        }
        proof {
            lemma_scan_inv(text_vec@, cols, rws, n as int);
            lemma_pages_partition(text_vec@, cols, rws);
        }
        if start < n {
            let ghost before = pages_vec@;
            pages_vec.push(Page { global_start_char_pos: start, global_stop_char_pos: n - 1 });
            assert(page_ranges(pages_vec@) =~= page_ranges(before).push((start as int, n - 1)));
        }
        let pv = PageVec { curr_page: 0, pages_vec };
        assert(pv.ranges().len() > 0 ==> pv.ranges().last() == (
            pv.pages_vec@.last().global_start_char_pos as int,
            pv.pages_vec@.last().global_stop_char_pos as int,
        ));
        Ok(pv)
    }

    /// The current page number and its page.
    pub fn get_curr_page(&self) -> (r: (usize, &Page))
        requires
            self.wf(),
            self.pages_vec@.len() > 0,
        ensures
            r.0 == self.curr_page,
            *r.1 == self.pages_vec@[self.curr_page as int],
    {
        (self.curr_page, &self.pages_vec[self.curr_page])
    }

    /// Makes `page_num` the current page if there is such a page; reports
    /// whether it did.
    pub fn set_curr_page_num(&mut self, page_num: usize) -> (r: bool)
        requires
            old(self).wf(),
        ensures
            final(self).wf(),
            final(self).pages_vec == old(self).pages_vec,
            r == (page_num < old(self).pages_vec@.len()),
            final(self).curr_page == if r {
                page_num
            } else {
                old(self).curr_page
            },
    {
        if page_num < self.pages_vec.len() {
            self.curr_page = page_num;
            return true;
        }
        false
    }

    /// The number of the first page that holds `global_char_pos`, or 0 when
    /// none does. In a table that tiles the text, an index of the text lies in
    /// exactly one page, and that page is the one returned.
    pub fn find_char_pos_in_pages(&self, global_char_pos: usize) -> (r: usize)
        ensures
            (exists|k: int| page_holds(self.ranges(), k, global_char_pos as int)) ==> {
                &&& page_holds(self.ranges(), r as int, global_char_pos as int)
                &&& forall|k: int| 0 <= k < r ==> !page_holds(self.ranges(), k, global_char_pos as int)
            },
            !(exists|k: int| page_holds(self.ranges(), k, global_char_pos as int)) ==> r == 0,
            self.wf() && global_char_pos < self.covered_len() ==> {
                &&& page_holds(self.ranges(), r as int, global_char_pos as int)
                &&& forall|k: int| #[trigger] page_holds(self.ranges(), k, global_char_pos as int) ==> k == r
            },
    {
        let ghost pos = global_char_pos as int;
        let mut page_num: usize = 0;
        while page_num < self.pages_vec.len()
            invariant
                page_num <= self.pages_vec@.len(),
                self.ranges().len() == self.pages_vec@.len(),
                pos == global_char_pos as int,
                forall|k: int| 0 <= k < page_num ==> !page_holds(self.ranges(), k, pos),
            decreases self.pages_vec@.len() - page_num,
        {
            let page = &self.pages_vec[page_num];
            assert(self.ranges()[page_num as int] == (
                page.global_start_char_pos as int,
                page.global_stop_char_pos as int,
            ));
            if global_char_pos >= page.global_start_char_pos && global_char_pos <= page.global_stop_char_pos {
                assert(page_holds(self.ranges(), page_num as int, pos));
                proof {
                    if self.wf() && global_char_pos < self.covered_len() {
                        lemma_unique_page(self.ranges(), self.covered_len(), pos);
                    }
                }
                return page_num;
            }
            page_num += 1;
        }
        proof {
            if self.wf() && global_char_pos < self.covered_len() {
                lemma_unique_page(self.ranges(), self.covered_len(), pos);
            }
        }
        0
    }

    /// Moves to the next page if there is one; reports whether it did.
    pub fn next_page(&mut self) -> (r: bool)
        requires
            old(self).wf(),
        ensures
            final(self).wf(),
            final(self).pages_vec == old(self).pages_vec,
            r == (old(self).curr_page + 1 < old(self).pages_vec@.len()),
            final(self).curr_page == if r {
                old(self).curr_page + 1
            } else {
                old(self).curr_page as int
            },
    {
        if self.pages_vec.len() > 0 && self.curr_page < self.pages_vec.len() - 1 {
            self.curr_page += 1;
            return true;
        }
        false
    }

    /// Moves to the previous page if there is one; reports whether it did.
    pub fn prev_page(&mut self) -> (r: bool)
        requires
            old(self).wf(),
        ensures
            final(self).wf(),
            final(self).pages_vec == old(self).pages_vec,
            r == (old(self).curr_page > 0),
            final(self).curr_page == if r {
                old(self).curr_page - 1
            } else {
                old(self).curr_page as int
            },
    {
        if self.curr_page > 0 {
            self.curr_page -= 1;
            return true;
        }
        false
    }
}

/// Paginating the same text on the same viewport twice gives the same pages:
/// any two page vectors whose ranges are the pages of that text are equal.
pub proof fn lemma_paginate_idempotent(
    text: Seq<char>,
    columns: int,
    rows: int,
    first: Seq<Page>,
    second: Seq<Page>,
)
    requires
        page_ranges(first) == pages_of(text, columns, rows),
        page_ranges(second) == pages_of(text, columns, rows),
    ensures
        first == second,
{
    assert(first.len() == page_ranges(first).len());
    assert forall|k: int| 0 <= k < first.len() implies first[k] == second[k] by {
        assert(page_ranges(first)[k] == page_ranges(second)[k]);
    }
    assert(first =~= second);
}

} // verus!
