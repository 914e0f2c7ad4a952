//! Fixation points: the words of a page and the part of each to emphasize.
use vstd::prelude::*;

use crate::codepoints::{alphanumeric, numeric, is_alphanumeric_char, is_numeric_char};

verus! {

/// Emphasis bounds `(middle_start, middle_end)` of a word `[word_start, word_end)`
/// that does not start with a digit.
pub open spec fn middle_of(word_start: int, word_end: int) -> (int, int) {
    let len = word_end - word_start;
    let half = len / 2;
    if len >= 5 && len % 2 == 1 {
        (word_start + half, word_start + half + 1)
    } else if len == 1 {
        (word_start, word_start)
    } else {
        (word_start + half - 1, word_start + half)
    }
}

/// Computes the emphasis bounds of a word from its start and (exclusive) end.
pub fn calc_middle_start_end_point(word_start: usize, word_end: usize) -> (r: (usize, usize))
    requires
        word_start < word_end,
    ensures
        r.0 as int == middle_of(word_start as int, word_end as int).0,
        r.1 as int == middle_of(word_start as int, word_end as int).1,
{
    let len: usize = word_end - word_start;
    let half: usize = len / 2;
    if len >= 5 && len % 2 == 1 {
        (word_start + half, word_start + half + 1)
    } else if len == 1 {
        (word_start, word_start)
    } else {
        (word_start + half - 1, word_start + half)
    }
}

/// One word of a page: `[start, end)` in page-local indices, and the
/// inclusive emphasis range `[middle_start, middle_end]`.
#[derive(Clone, Copy, Debug, PartialEq, Eq, Structural)]
pub struct Word {
    pub start: usize,
    pub end: usize,
    pub middle_start: usize,
    pub middle_end: usize,
}

/// The emphasis range of the word `[start, end)` of `buf`: the whole word
/// when it starts with a numeric code point, else the middle rule.
pub open spec fn emphasis_of(buf: Seq<char>, start: int, end: int) -> (int, int) {
    if numeric(buf[start]) {
        (start, end - 1)
    } else {
        middle_of(start, end)
    }
}

/// `w` is a maximal run of alphanumeric code points of `buf`, with its
/// emphasis range.
pub open spec fn is_word_of(buf: Seq<char>, w: Word) -> bool {
    &&& w.start < w.end <= buf.len()
    &&& forall|j: int| w.start <= j < w.end ==> #[trigger] alphanumeric(buf[j])
    &&& w.start == 0 || !alphanumeric(buf[w.start - 1])
    &&& w.end == buf.len() || !alphanumeric(buf[w.end as int])
    &&& (w.middle_start as int, w.middle_end as int) == emphasis_of(buf, w.start as int, w.end as int)
}

/// `words` are the words of `buf`, in order: every one is a maximal
/// alphanumeric run, each ends before the next starts, and every
/// alphanumeric code point lies in one of them.
pub open spec fn words_of(buf: Seq<char>, words: Seq<Word>) -> bool {
    &&& forall|k: int| 0 <= k < words.len() ==> is_word_of(buf, #[trigger] words[k])
    &&& forall|k: int| 0 <= k < words.len() - 1 ==> #[trigger] words[k].end < words[k + 1].start
    &&& forall|j: int|
        0 <= j < buf.len() && #[trigger] alphanumeric(buf[j]) ==> exists|k: int|
            0 <= k < words.len() && #[trigger] words[k].start <= j < words[k].end
}

/// The word `[start, end)` of `buf` with its emphasis range.
fn make_word(buf: &Vec<char>, start: usize, end: usize) -> (w: Word)
    requires
        start < end <= buf@.len(),
    ensures
        w.start == start && w.end == end,
        (w.middle_start as int, w.middle_end as int) == emphasis_of(buf@, start as int, end as int),
{
    let (middle_start, middle_end) = if is_numeric_char(buf[start]) {
        (start, end - 1)
    } else {
        calc_middle_start_end_point(start, end)
    };
    Word { start, end, middle_start, middle_end }
}

/// Splits a page's code points into its words, each with its emphasis range.
pub fn segment(p_buf: &Vec<char>) -> (r: Vec<Word>)
    ensures
        words_of(p_buf@, r@),
{
    let n = p_buf.len();
    let mut words_index: Vec<Word> = Vec::new();
    let mut flag_inside_word = false;
    let mut start: usize = 0;
    let mut i: usize = 0;
    while i < n
        invariant
            n == p_buf@.len(),
            i <= n,
            flag_inside_word ==> start < i && (start == 0 || !alphanumeric(p_buf@[start - 1]))
                && forall|j: int| start <= j < i ==> #[trigger] alphanumeric(p_buf@[j]),
            !flag_inside_word ==> i == 0 || !alphanumeric(p_buf@[i - 1]),
            forall|k: int| 0 <= k < words_index@.len() ==> is_word_of(p_buf@, #[trigger] words_index@[k]),
            forall|k: int| 0 <= k < words_index@.len() - 1 ==> #[trigger] words_index@[k].end < words_index@[k + 1].start,
            words_index@.len() > 0 ==> words_index@.last().end < (if flag_inside_word { start } else { i }),
            forall|j: int|
                0 <= j < (if flag_inside_word { start } else { i }) && #[trigger] alphanumeric(p_buf@[j]) ==> exists|k: int|
                    0 <= k < words_index@.len() && #[trigger] words_index@[k].start <= j < words_index@[k].end,
        decreases n - i,
    {
        let c = p_buf[i];
        if is_alphanumeric_char(c) {
            if !flag_inside_word {
                flag_inside_word = true;
                start = i;
            }
        } else if flag_inside_word {
            flag_inside_word = false;
            let w = make_word(p_buf, start, i);
            let ghost before = words_index@;
            words_index.push(w);
            proof {
                let wi = words_index@;
                assert(wi[wi.len() - 1] == w);
                assert forall|j: int|
                    0 <= j < i + 1 && #[trigger] alphanumeric(p_buf@[j]) implies exists|k: int|
                        0 <= k < wi.len() && #[trigger] wi[k].start <= j < wi[k].end by {
                    if j < start {
                        let k0 = choose|k0: int| 0 <= k0 < before.len() && #[trigger] before[k0].start <= j < before[k0].end;
                        assert(wi[k0] == before[k0]);
                    } else {
                        assert(wi[wi.len() - 1].start <= j < wi[wi.len() - 1].end);
                    }
                }
                assert forall|k: int| 0 <= k < wi.len() implies is_word_of(p_buf@, #[trigger] wi[k]) by {
                    if k < before.len() {
                        assert(wi[k] == before[k]);
                    }
                }
                assert forall|k: int| 0 <= k < wi.len() - 1 implies #[trigger] wi[k].end < wi[k + 1].start by {
                    if k < before.len() - 1 {
                        assert(wi[k] == before[k] && wi[k + 1] == before[k + 1]);
                    } else {
                        assert(wi[k] == before.last());
                    }
                }
            }
        }
        i += 1;
    }
    if flag_inside_word {
        let w = make_word(p_buf, start, n);
        let ghost before = words_index@;
        words_index.push(w);
        proof {
            let wi = words_index@;
            assert(wi[wi.len() - 1] == w);
            assert forall|j: int|
                0 <= j < n && #[trigger] alphanumeric(p_buf@[j]) implies exists|k: int|
                    0 <= k < wi.len() && #[trigger] wi[k].start <= j < wi[k].end by {
                if j < start {
                    let k0 = choose|k0: int| 0 <= k0 < before.len() && #[trigger] before[k0].start <= j < before[k0].end;
                    assert(wi[k0] == before[k0]);
                } else {
                    assert(wi[wi.len() - 1].start <= j < wi[wi.len() - 1].end);
                }
            }
            assert forall|k: int| 0 <= k < wi.len() implies is_word_of(p_buf@, #[trigger] wi[k]) by {
                if k < before.len() {
                    assert(wi[k] == before[k]);
                }
            }
            assert forall|k: int| 0 <= k < wi.len() - 1 implies #[trigger] wi[k].end < wi[k + 1].start by {
                if k < before.len() - 1 {
                    assert(wi[k] == before[k] && wi[k + 1] == before[k + 1]);
                } else {
                    assert(wi[k] == before.last());
                }
            }
        }
    }
    words_index
}

/// Whether `index` lies in the first part of some word: from its start up to
/// and including the first emphasized code point.
pub fn is_inside_word_first_half(words: &Vec<Word>, index: usize) -> (r: bool)
    ensures
        r == exists|k: int|
            0 <= k < words@.len() && #[trigger] words@[k].start <= index <= words@[k].middle_start,
{
    let mut k: usize = 0;
    while k < words.len()
        invariant
            k <= words@.len(),
            forall|j: int| 0 <= j < k ==> !(#[trigger] words@[j].start <= index <= words@[j].middle_start),
        decreases words@.len() - k,
    {
        let word = &words[k];
        if index >= word.start && index <= word.middle_start {
            return true;
        }
        k += 1;
    }
    false
}

} // verus!
