//! The search index: the occurrences of a pattern in the text, with a cursor
//! and position-aware navigation.
use vstd::prelude::*;

use crate::codepoints::{nfc_of, nfc_chars};
use crate::matching::{is_match_at, matches_from, lemma_scan_matches};
use crate::text::{StringUtilsVecCharsV2, as_ints};

verus! {

/// One occurrence: the inclusive range of global indices it spans.
#[derive(Clone, Copy, Debug, PartialEq, Eq, Structural)]
pub struct TextPos {
    pub start_pos: usize,
    pub end_pos: usize,
}

/// The occurrences of a pattern, in ascending order, and the current one.
pub struct Search {
    pub curr_pos: usize,
    pub text_pos_vec: Vec<TextPos>,
}

/// The occurrences that a scan for a pattern of length `plen` found at `starts`.
pub open spec fn occurrences_at(found: Seq<TextPos>, starts: Seq<int>, plen: int) -> bool {
    &&& found.len() == starts.len()
    &&& forall|k: int|
        0 <= k < found.len() ==> #[trigger] found[k].start_pos == starts[k] && found[k].end_pos
            == starts[k] + plen - 1
}

impl Search {
    /// The start of occurrence `k`.
    pub open spec fn start_of(&self, k: int) -> int {
        self.text_pos_vec@[k].start_pos as int
    }

    /// Occurrence `k` spans index `i`.
    pub open spec fn spans(&self, k: int, i: int) -> bool {
        0 <= k < self.text_pos_vec@.len() && self.text_pos_vec@[k].start_pos <= i
            <= self.text_pos_vec@[k].end_pos
    }

    /// There is at least one occurrence, they ascend without overlapping, and
    /// the cursor is on one of them.
    pub open spec fn wf(&self) -> bool {
        &&& self.text_pos_vec@.len() > 0
        &&& self.curr_pos < self.text_pos_vec@.len()
        &&& forall|k: int|
            0 <= k < self.text_pos_vec@.len() ==> #[trigger] self.text_pos_vec@[k].start_pos
                <= self.text_pos_vec@[k].end_pos
        &&& forall|a: int, b: int|
            0 <= a < b < self.text_pos_vec@.len() ==> #[trigger] self.text_pos_vec@[a].end_pos
                < #[trigger] self.text_pos_vec@[b].start_pos
    }

    /// The occurrences of `pattern` in `global_text` found by the
    /// left-to-right non-overlapping scan, with the cursor on the first; `None`
    /// when there is none.
    pub fn find_vec(global_text: &Vec<char>, pattern: &Vec<char>) -> (r: Option<Self>)
        ensures
            matches_from(global_text@, pattern@, 0).len() == 0 <==> r is None,
            match r {
                Some(s) => {
                    &&& s.wf()
                    &&& s.curr_pos == 0
                    &&& occurrences_at(
                        s.text_pos_vec@,
                        matches_from(global_text@, pattern@, 0),
                        pattern@.len() as int,
                    )
                },
                None => true,
            },
    {
        let ocurrencies = global_text.find_vec_all(pattern);
        let ghost m = matches_from(global_text@, pattern@, 0);
        if ocurrencies.len() == 0 {
            return None;
        }
        proof {
            lemma_scan_matches(global_text@, pattern@, 0);
            assert(as_ints(ocurrencies@).len() == ocurrencies@.len());
        }
        let plen = pattern.len();
        let n = global_text.len();
        let mut text_pos_vec: Vec<TextPos> = Vec::new();
        let mut k: usize = 0;
        while k < ocurrencies.len()
            invariant
                as_ints(ocurrencies@) == m,
                m.len() == ocurrencies@.len(),
                m == matches_from(global_text@, pattern@, 0),
                plen == pattern@.len(),
                n == global_text@.len(),
                k <= ocurrencies@.len(),
                forall|j: int| 0 <= j < m.len() ==> #[trigger] is_match_at(global_text@, pattern@, m[j]),
                occurrences_at(text_pos_vec@, m.subrange(0, k as int), plen as int),
            decreases ocurrencies@.len() - k,
        {
            let start_pos = ocurrencies[k];
            assert(m[k as int] == start_pos as int);
            assert(is_match_at(global_text@, pattern@, m[k as int]));
            let ghost before = text_pos_vec@;
            text_pos_vec.push(TextPos { start_pos, end_pos: start_pos + plen - 1 });
            assert forall|j: int| 0 <= j < k + 1 implies #[trigger] text_pos_vec@[j].start_pos == m.subrange(0, k + 1)[j]
                && text_pos_vec@[j].end_pos == m.subrange(0, k + 1)[j] + plen - 1 by {
                if j < k {
                    assert(text_pos_vec@[j] == before[j]);
                    assert(before[j].start_pos == m.subrange(0, k as int)[j]);
                }
            }
            k += 1;
        }
        assert(m.subrange(0, k as int) =~= m);
        assert(occurrences_at(text_pos_vec@, m, plen as int));
        proof {
            lemma_scan_matches(global_text@, pattern@, 0);
        }
        let s = Search { curr_pos: 0, text_pos_vec };
        assert forall|a: int, b: int| 0 <= a < b < s.text_pos_vec@.len() implies #[trigger] s.text_pos_vec@[a].end_pos
            < #[trigger] s.text_pos_vec@[b].start_pos by {
            lemma_ascending(m, plen as int, a, b);
            assert(s.text_pos_vec@[a].start_pos == m[a]);
            assert(s.text_pos_vec@[a].end_pos == m[a] + plen - 1);
            assert(s.text_pos_vec@[b].start_pos == m[b]);
        }
        Some(s)
    }

    /// `find_vec` with the normalized code points of `search_string`.
    pub fn find(global_text: &Vec<char>, search_string: &str) -> (r: Option<Self>)
        ensures
            matches_from(global_text@, nfc_of(search_string@), 0).len() == 0 <==> r is None,
            match r {
                Some(s) => {
                    &&& s.wf()
                    &&& s.curr_pos == 0
                    &&& occurrences_at(
                        s.text_pos_vec@,
                        matches_from(global_text@, nfc_of(search_string@), 0),
                        nfc_of(search_string@).len() as int,
                    )
                },
                None => true,
            },
    {
        let pattern = nfc_chars(search_string);
        Self::find_vec(global_text, &pattern)
    }

    /// The cursor and the occurrence it is on.
    pub fn get_curr_pos(&self) -> (r: (usize, &TextPos))
        requires
            self.wf(),
        ensures
            r.0 == self.curr_pos,
            *r.1 == self.text_pos_vec@[self.curr_pos as int],
    {
        (self.curr_pos, &self.text_pos_vec[self.curr_pos])
    }

    /// Moves the cursor to the next occurrence if there is one; reports
    /// whether it did.
    pub fn next_pos(&mut self) -> (r: bool)
        requires
            old(self).wf(),
        ensures
            final(self).wf(),
            final(self).text_pos_vec == old(self).text_pos_vec,
            r == (old(self).curr_pos + 1 < old(self).text_pos_vec@.len()),
            final(self).curr_pos == if r {
                old(self).curr_pos + 1
            } else {
                old(self).curr_pos as int
            },
    {
        if self.curr_pos < self.text_pos_vec.len() - 1 {
            self.curr_pos += 1;
            return true;
        }
        false
    }

    /// Moves the cursor to the previous occurrence if there is one; reports
    /// whether it did.
    pub fn prev_pos(&mut self) -> (r: bool)
        requires
            old(self).wf(),
        ensures
            final(self).wf(),
            final(self).text_pos_vec == old(self).text_pos_vec,
            r == (old(self).curr_pos > 0),
            final(self).curr_pos == if r {
                old(self).curr_pos - 1
            } else {
                old(self).curr_pos as int
            },
    {
        if self.curr_pos > 0 {
            self.curr_pos -= 1;
            return true;
        }
        false
    }

    /// Moves the cursor to the first occurrence that starts at or after
    /// `global_curr_page_start_pos`, or, when every occurrence starts before
    /// it, back to the very first occurrence; returns that occurrence's start.
    pub fn find_next_nearest_pos(&mut self, global_curr_page_start_pos: usize) -> (r: usize)
        requires
            old(self).wf(),
        ensures
            final(self).wf(),
            final(self).text_pos_vec == old(self).text_pos_vec,
            r as int == final(self).start_of(final(self).curr_pos as int),
            (exists|k: int|
                0 <= k < old(self).text_pos_vec@.len() && #[trigger] old(self).start_of(k)
                    >= global_curr_page_start_pos) ==> {
                &&& final(self).start_of(final(self).curr_pos as int) >= global_curr_page_start_pos
                &&& forall|k: int|
                    0 <= k < final(self).curr_pos ==> #[trigger] old(self).start_of(k)
                        < global_curr_page_start_pos
            },
            !(exists|k: int|
                0 <= k < old(self).text_pos_vec@.len() && #[trigger] old(self).start_of(k)
                    >= global_curr_page_start_pos) ==> final(self).curr_pos == 0,
    {
        let mut word_index: usize = 0;
        while word_index < self.text_pos_vec.len()
            invariant
                self.wf(),
                *self == *old(self),
                word_index <= self.text_pos_vec@.len(),
                forall|k: int| 0 <= k < word_index ==> #[trigger] self.start_of(k) < global_curr_page_start_pos,
            decreases self.text_pos_vec@.len() - word_index,
        {
            if self.text_pos_vec[word_index].start_pos >= global_curr_page_start_pos {
                assert(self.start_of(word_index as int) >= global_curr_page_start_pos);
                self.curr_pos = word_index;
                return self.text_pos_vec[word_index].start_pos;
            }
            word_index += 1;
        }
        self.curr_pos = 0;
        self.text_pos_vec[0].start_pos
    }

    /// Whether index `global_pos_of_char` lies in some occurrence.
    pub fn is_inside_word(&self, global_pos_of_char: usize) -> (r: bool)
        ensures
            r == exists|k: int| #[trigger] self.spans(k, global_pos_of_char as int),
    {
        let mut k: usize = 0;
        while k < self.text_pos_vec.len()
            invariant
                k <= self.text_pos_vec@.len(),
                forall|j: int| 0 <= j < k ==> !#[trigger] self.spans(j, global_pos_of_char as int),
            decreases self.text_pos_vec@.len() - k,
        {
            let text_pos = &self.text_pos_vec[k];
            if global_pos_of_char >= text_pos.start_pos && global_pos_of_char <= text_pos.end_pos {
                assert(self.spans(k as int, global_pos_of_char as int));
                return true;
            }
            k += 1;
        }
        false
    }

    /// Whether index `global_pos_of_char` lies in the current occurrence.
    pub fn is_inside_current_word(&self, global_pos_of_char: usize) -> (r: bool)
        requires
            self.wf(),
        ensures
            r == self.spans(self.curr_pos as int, global_pos_of_char as int),
    {
        let text_pos = &self.text_pos_vec[self.curr_pos];
        global_pos_of_char >= text_pos.start_pos && global_pos_of_char <= text_pos.end_pos
    }
}

/// The occurrences that a scan found start inside the text.
pub proof fn lemma_occurrences_in_text(text: Seq<char>, pat: Seq<char>, found: Seq<TextPos>)
    requires
        occurrences_at(found, matches_from(text, pat, 0), pat.len() as int),
    ensures
        forall|k: int| 0 <= k < found.len() ==> #[trigger] found[k].start_pos < text.len(),
{
    let m = matches_from(text, pat, 0);
    lemma_scan_matches(text, pat, 0);
    assert forall|k: int| 0 <= k < found.len() implies #[trigger] found[k].start_pos < text.len() by {
        assert(found[k].start_pos == m[k]);
        assert(is_match_at(text, pat, m[k]));
    }
}

/// In a scan's ascending, non-overlapping matches, a later one starts after
/// an earlier one ends.
proof fn lemma_ascending(m: Seq<int>, plen: int, a: int, b: int)
    requires
        0 <= a < b < m.len(),
        plen > 0,
        forall|k: int| 0 <= k < m.len() - 1 ==> #[trigger] m[k] + plen <= m[k + 1],
    ensures
        m[a] + plen - 1 < m[b],
    decreases b - a,
{
    assert(m[b - 1] + plen <= m[b]);
    if a < b - 1 {
        lemma_ascending(m, plen, a, b - 1);
    }
}

} // verus!
