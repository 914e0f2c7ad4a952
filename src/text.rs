//! Code-point text: a `Vec<char>` addressed by code point, with search,
//! replace, split, trim, insert and join.
use vstd::prelude::*;
use vstd::slice::{slice_subrange, slice_to_vec};
use vstd::string::{StrSliceExecFns, StringExecFns};

use crate::matching::{
    is_match_at, no_match_in, matches_from, replaced_from, pieces_from, split_pieces,
    non_empty_piece, lemma_matches_skip, lemma_replaced_skip, lemma_pieces_skip,
};

use crate::codepoints::{nfc_of, is_white_space, nfc_chars, chars_of, string_of, is_whitespace_char};

verus! {

/// `text` without its leading White_Space code points.
pub open spec fn trim_start_of(text: Seq<char>) -> Seq<char>
    decreases text.len(),
{
    if text.len() > 0 && is_white_space(text[0]) {
        trim_start_of(text.drop_first())
    } else {
        text
    }
}

/// `text` without its trailing White_Space code points.
pub open spec fn trim_end_of(text: Seq<char>) -> Seq<char>
    decreases text.len(),
{
    if text.len() > 0 && is_white_space(text.last()) {
        trim_end_of(text.drop_last())
    } else {
        text
    }
}

/// `text` starts with `pat`.
pub open spec fn has_prefix(text: Seq<char>, pat: Seq<char>) -> bool {
    pat.len() <= text.len() && text.subrange(0, pat.len() as int) == pat
}

/// `text` ends with `pat`.
pub open spec fn has_suffix(text: Seq<char>, pat: Seq<char>) -> bool {
    pat.len() <= text.len() && text.subrange(text.len() - pat.len(), text.len() as int) == pat
}

/// `text` with `ins` put in before index `at`.
pub open spec fn inserted_at(text: Seq<char>, ins: Seq<char>, at: int) -> Seq<char> {
    text.subrange(0, at) + ins + text.subrange(at, text.len() as int)
}

/// The code points of each slice.
pub open spec fn slice_views(parts: Seq<&[char]>) -> Seq<Seq<char>> {
    parts.map_values(|p: &[char]| p@)
}

/// The normalized code points of each string.
pub open spec fn nfc_views(parts: Seq<&str>) -> Seq<Seq<char>> {
    parts.map_values(|p: &str| nfc_of(p@))
}

/// Appends the code points of `src` to `out`.
pub fn append_chars(out: &mut Vec<char>, src: &[char])
    ensures
        final(out)@ == old(out)@ + src@,
{
    let mut i: usize = 0;
    while i < src.len()
        invariant
            i <= src@.len(),
            out@ == old(out)@ + src@.subrange(0, i as int),
        decreases src@.len() - i,
    {
        out.push(src[i]);
        i += 1;
        assert(out@ =~= old(out)@ + src@.subrange(0, i as int));
    }
    assert(src@.subrange(0, src@.len() as int) =~= src@);
}

/// `text` after replacing every match of `src` by `tgt`, or unchanged when
/// `src` does not occur.
pub open spec fn apply_replacement(text: Seq<char>, src: Seq<char>, tgt: Seq<char>) -> Seq<char> {
    if matches_from(text, src, 0).len() > 0 {
        replaced_from(text, src, tgt, 0)
    } else {
        text
    }
}

/// `text` after the first `k` replacements of `pairs`, each done in turn on
/// the result of the ones before, with normalized patterns.
pub open spec fn after_pairs(text: Seq<char>, pairs: Seq<(&str, &str)>, k: int) -> Seq<char>
    decreases k,
{
    if k <= 0 {
        text
    } else {
        apply_replacement(
            after_pairs(text, pairs, k - 1),
            nfc_of(pairs[k - 1].0@),
            nfc_of(pairs[k - 1].1@),
        )
    }
}

/// The last index that a search from `start_pos` looks at: `end_pos`, or the
/// last code point of a text of length `n`.
pub open spec fn scan_last(end_pos: Option<usize>, n: int) -> int {
    match end_pos {
        Some(e) => e as int,
        None => n - 1,
    }
}

/// The ranges that a search accepts: any range in an empty text; otherwise a
/// start inside the text and an end, if given, between the start and the
/// last code point.
pub open spec fn valid_scan_range(n: int, start_pos: usize, end_pos: Option<usize>) -> bool {
    n == 0 || (start_pos < n && match end_pos {
        Some(e) => start_pos <= e < n,
        None => true,
    })
}

/// What a search of `pat` in `text` over `[start_pos, scan_last]` returns:
/// the first start of a match there, or `None`.
pub open spec fn find_result(
    text: Seq<char>,
    pat: Seq<char>,
    start_pos: usize,
    end_pos: Option<usize>,
    r: Option<usize>,
) -> bool {
    match r {
        Some(i) => {
            &&& start_pos <= i <= scan_last(end_pos, text.len() as int)
            &&& is_match_at(text, pat, i as int)
            &&& no_match_in(text, pat, start_pos as int, i as int)
        },
        None => no_match_in(
            text,
            pat,
            start_pos as int,
            scan_last(end_pos, text.len() as int) + 1,
        ),
    }
}

/// The integers that a vector of indices holds.
pub open spec fn as_ints(v: Seq<usize>) -> Seq<int> {
    v.map_values(|x: usize| x as int)
}

/// Editing, searching and splitting operations on a code-point buffer.
pub trait StringUtilsVecCharsV2: Sized {
    /// The code points that the buffer holds.
    spec fn code_points(&self) -> Seq<char>;

    /// Concatenation of the slices, in order.
    fn join_vec(p_vec_vec_chars: &[&[char]]) -> (r: Vec<char>)
        ensures
            r@ == slice_views(p_vec_vec_chars@).flatten(),
    ;

    /// Concatenation of the normalized code points of the strings, in order.
    fn join_str(p_vec_str: &[&str]) -> (r: Vec<char>)
        ensures
            r@ == nfc_views(p_vec_str@).flatten(),
    ;

    /// Whether the buffer holds exactly the code points of `other`.
    fn eq_vec(&self, other: &[char]) -> (r: bool)
        ensures
            r == (self.code_points() == other@),
    ;

    /// Whether the buffer holds exactly the code points of `p_str`.
    fn eq_str(&self, p_str: &str) -> (r: bool)
        ensures
            r == (self.code_points() == p_str@),
    ;

    /// Appends `p_vec_chars`.
    fn push_vec(&mut self, p_vec_chars: &[char])
        ensures
            final(self).code_points() == old(self).code_points() + p_vec_chars@,
    ;

    /// Appends the normalized code points of `p_str`.
    fn push_str(&mut self, p_str: &str)
        ensures
            final(self).code_points() == old(self).code_points() + nfc_of(p_str@),
    ;

    /// Prepends the normalized code points of `p_str`.
    fn push_str_start(&mut self, p_str: &str)
        ensures
            final(self).code_points() == nfc_of(p_str@) + old(self).code_points(),
    ;

    /// Prepends `other_vec`.
    fn push_vec_start(&mut self, other_vec: &Vec<char>)
        ensures
            final(self).code_points() == other_vec@ + old(self).code_points(),
    ;

    /// Inserts the normalized code points of `p_str` before index `at_pos`;
    /// an index at or past the end is refused and the buffer kept.
    fn insert_str(&mut self, p_str: &str, at_pos: usize) -> (r: Result<(), String>)
        ensures
            at_pos >= old(self).code_points().len() ==> r is Err && final(self).code_points()
                == old(self).code_points(),
            at_pos < old(self).code_points().len() ==> r is Ok && final(self).code_points()
                == inserted_at(old(self).code_points(), nfc_of(p_str@), at_pos as int),
    ;

    /// Inserts `other_vec` before index `at_pos`; an index at or past the end
    /// is refused and the buffer kept.
    fn insert_vec(&mut self, other_vec: &Vec<char>, at_pos: usize) -> (r: Result<(), String>)
        ensures
            at_pos >= old(self).code_points().len() ==> r is Err && final(self).code_points()
                == old(self).code_points(),
            at_pos < old(self).code_points().len() ==> r is Ok && final(self).code_points()
                == inserted_at(old(self).code_points(), other_vec@, at_pos as int),
    ;

    /// Removes the leading White_Space code points.
    fn trim_start(&mut self)
        ensures
            final(self).code_points() == trim_start_of(old(self).code_points()),
    ;

    /// Removes the trailing White_Space code points.
    fn trim_end(&mut self)
        ensures
            final(self).code_points() == trim_end_of(old(self).code_points()),
    ;

    /// Removes the leading and the trailing White_Space code points.
    fn trim(&mut self)
        ensures
            final(self).code_points() == trim_end_of(trim_start_of(old(self).code_points())),
    ;

    /// `find_vec` with the normalized code points of `p_str` as the pattern.
    fn find_str(&self, p_str: &str, start_pos: usize, end_pos: Option<usize>) -> (r: Option<
        usize,
    >)
        requires
            valid_scan_range(self.code_points().len() as int, start_pos, end_pos),
        ensures
            find_result(self.code_points(), nfc_of(p_str@), start_pos, end_pos, r),
    ;

    /// Whether `p_vec_chars` occurs anywhere.
    fn contains_vec(&self, p_vec_chars: &Vec<char>) -> (r: bool)
        ensures
            r == exists|i: int| is_match_at(self.code_points(), p_vec_chars@, i),
    ;

    /// Whether the normalized code points of `p_str` occur anywhere.
    fn contains_str(&self, p_str: &str) -> (r: bool)
        ensures
            r == exists|i: int| is_match_at(self.code_points(), nfc_of(p_str@), i),
    ;

    /// Whether the buffer starts with `pattern_vec_chars`.
    fn start_with_vec(&self, pattern_vec_chars: &[char]) -> (r: bool)
        ensures
            r == has_prefix(self.code_points(), pattern_vec_chars@),
    ;

    /// Whether the buffer starts with the normalized code points of `pattern_str`.
    fn start_with_str(&self, pattern_str: &str) -> (r: bool)
        ensures
            r == has_prefix(self.code_points(), nfc_of(pattern_str@)),
    ;

    /// Whether the buffer ends with `pattern_vec_chars`.
    fn ends_with_vec(&self, pattern_vec_chars: &[char]) -> (r: bool)
        ensures
            r == has_suffix(self.code_points(), pattern_vec_chars@),
    ;

    /// Whether the buffer ends with the normalized code points of `pattern_str`.
    fn ends_with_str(&self, pattern_str: &str) -> (r: bool)
        ensures
            r == has_suffix(self.code_points(), nfc_of(pattern_str@)),
    ;

    /// The first match of `p_vec_chars` whose start lies in
    /// `[start_pos, end_pos]` (`end_pos` defaults to the last code point).
    fn find_vec(&self, p_vec_chars: &Vec<char>, start_pos: usize, end_pos: Option<usize>) -> (r:
        Option<usize>)
        requires
            valid_scan_range(self.code_points().len() as int, start_pos, end_pos),
        ensures
            find_result(self.code_points(), p_vec_chars@, start_pos, end_pos, r),
    ;

    /// The starts of all matches of `pattern_vec_chars`, scanning left to
    /// right and resuming after the end of each match.
    fn find_vec_all(&self, pattern_vec_chars: &Vec<char>) -> (r: Vec<usize>)
        ensures
            as_ints(r@) == matches_from(self.code_points(), pattern_vec_chars@, 0),
    ;

    /// `find_vec_all` with the normalized code points of `pattern_str`.
    fn find_str_all(&self, pattern_str: &str) -> (r: Vec<usize>)
        ensures
            as_ints(r@) == matches_from(self.code_points(), nfc_of(pattern_str@), 0),
    ;

    /// Replaces the first match of `match_pattern_vec` whose start lies in
    /// `[start_pos, end_pos]` by `replace_pattern_vec`; returns where it was.
    fn replace_vec(
        &mut self,
        match_pattern_vec: &Vec<char>,
        replace_pattern_vec: &Vec<char>,
        start_pos: usize,
        end_pos: Option<usize>,
    ) -> (r: Option<usize>)
        requires
            valid_scan_range(old(self).code_points().len() as int, start_pos, end_pos),
        ensures
            find_result(old(self).code_points(), match_pattern_vec@, start_pos, end_pos, r),
            match r {
                Some(i) => final(self).code_points() == old(self).code_points().subrange(0, i as int)
                    + replace_pattern_vec@ + old(self).code_points().subrange(
                    i + match_pattern_vec@.len(),
                    old(self).code_points().len() as int,
                ),
                None => final(self).code_points() == old(self).code_points(),
            },
    ;

    /// `replace_vec` with the normalized code points of both strings.
    fn replace_str(
        &mut self,
        match_pattern_str: &str,
        replace_pattern_str: &str,
        start_pos: usize,
        end_pos: Option<usize>,
    ) -> (r: Option<usize>)
        requires
            valid_scan_range(old(self).code_points().len() as int, start_pos, end_pos),
        ensures
            find_result(old(self).code_points(), nfc_of(match_pattern_str@), start_pos, end_pos, r),
            match r {
                Some(i) => final(self).code_points() == old(self).code_points().subrange(0, i as int)
                    + nfc_of(replace_pattern_str@) + old(self).code_points().subrange(
                    i + nfc_of(match_pattern_str@).len(),
                    old(self).code_points().len() as int,
                ),
                None => final(self).code_points() == old(self).code_points(),
            },
    ;

    /// Replaces every match of the left-to-right non-overlapping scan by
    /// `replace_pattern_vec`; returns how many there were, or `None` (and
    /// keeps the buffer) when there was none.
    fn replace_vec_all(&mut self, match_pattern_vec: &Vec<char>, replace_pattern_vec: &Vec<char>) -> (r:
        Option<usize>)
        ensures
            matches_from(old(self).code_points(), match_pattern_vec@, 0).len() == 0 ==> r is None
                && final(self).code_points() == old(self).code_points(),
            matches_from(old(self).code_points(), match_pattern_vec@, 0).len() > 0 ==> (r matches Some(c)
                && c == matches_from(old(self).code_points(), match_pattern_vec@, 0).len()) && final(self).code_points() == replaced_from(
                old(self).code_points(),
                match_pattern_vec@,
                replace_pattern_vec@,
                0,
            ),
    ;

    /// `replace_vec_all` with the normalized code points of both strings.
    fn replace_str_all(&mut self, match_pattern_str: &str, replace_pattern_str: &str) -> (r: Option<
        usize,
    >)
        ensures
            matches_from(old(self).code_points(), nfc_of(match_pattern_str@), 0).len() == 0 ==> r is None
                && final(self).code_points() == old(self).code_points(),
            matches_from(old(self).code_points(), nfc_of(match_pattern_str@), 0).len() > 0 ==> (r matches Some(c)
                && c == matches_from(old(self).code_points(), nfc_of(match_pattern_str@), 0).len()) && final(self).code_points() == replaced_from(
                old(self).code_points(),
                nfc_of(match_pattern_str@),
                nfc_of(replace_pattern_str@),
                0,
            ),
    ;

    /// The non-empty pieces between the matches of `at_pattern_vec`; nothing
    /// when it does not occur.
    fn split_vec(&self, at_pattern_vec: &Vec<char>) -> (r: Vec<&[char]>)
        ensures
            slice_views(r@) == split_pieces(self.code_points(), at_pattern_vec@),
    ;

    /// `split_vec` at the normalized code points of `at_pattern_str`.
    fn split_str(&self, at_pattern_str: &str) -> (r: Vec<&[char]>)
        ensures
            slice_views(r@) == split_pieces(self.code_points(), nfc_of(at_pattern_str@)),
    ;
    /// Does `replace_str_all` for each pair `(from, to)` of `map`, in order;
    /// returns how many replacements each pair made.
    fn map_str(&mut self, map: &[(&str, &str)]) -> (r: Vec<usize>)
        ensures
            final(self).code_points() == after_pairs(old(self).code_points(), map@, map@.len() as int),
            r@.len() == map@.len(),
            forall|k: int|
                0 <= k < map@.len() ==> #[trigger] r@[k] == matches_from(
                    after_pairs(old(self).code_points(), map@, k),
                    nfc_of(map@[k].0@),
                    0,
                ).len(),
    ;
}

impl StringUtilsVecCharsV2 for Vec<char> {
    open spec fn code_points(&self) -> Seq<char> {
        self@
    }

    fn find_vec(&self, p_vec_chars: &Vec<char>, start_pos: usize, end_pos: Option<usize>) -> (r:
        Option<usize>) {
        let n = self.len();
        if n == 0 {
            return None;
        }
        let last: usize = match end_pos {
            Some(v) => v,
            None => n - 1,
        };
        let plen = p_vec_chars.len();
        if plen == 0 {
            return None;
        }
        let mut i: usize = start_pos;
        while i <= last
            invariant
                n == self@.len(),
                plen == p_vec_chars@.len(),
                plen > 0,
                start_pos <= i,
                last < n,
                last as int == scan_last(end_pos, n as int),
                no_match_in(self@, p_vec_chars@, start_pos as int, i as int),
            decreases last + 1 - i,
        {
            if plen > n - i {
                assert(no_match_in(self@, p_vec_chars@, start_pos as int, last + 1)) by {
                    assert forall|j: int| start_pos <= j < last + 1 implies !#[trigger] is_match_at(
                        self@,
                        p_vec_chars@,
                        j,
                    ) by {
                        if j >= i {
                        }
                    }
                }
                return None;
            }
            let mut k: usize = 0;
            while k < plen && self[i + k] == p_vec_chars[k]
                invariant
                    n == self@.len(),
                    plen == p_vec_chars@.len(),
                    i + plen <= n,
                    k <= plen,
                    forall|j: int| 0 <= j < k ==> self@[i + j] == p_vec_chars@[j],
                decreases plen - k,
            {
                k += 1;
            }
            if k == plen {
                assert(self@.subrange(i as int, i + plen) =~= p_vec_chars@);
                return Some(i);
            }
            assert(!is_match_at(self@, p_vec_chars@, i as int)) by {
                if is_match_at(self@, p_vec_chars@, i as int) {
                    assert(self@.subrange(i as int, i + plen)[k as int] == p_vec_chars@[k as int]);
                }
            }
            i += 1;
        }
        None
    }

    fn find_vec_all(&self, pattern_vec_chars: &Vec<char>) -> (r: Vec<usize>) {
        let n = self.len();
        let plen = pattern_vec_chars.len();
        let mut next_start_pos: usize = 0;
        let mut indexes_vec: Vec<usize> = Vec::new();
        while next_start_pos < n
            invariant
                n == self@.len(),
                plen == pattern_vec_chars@.len(),
                next_start_pos <= n,
                as_ints(indexes_vec@) + matches_from(self@, pattern_vec_chars@, next_start_pos as int)
                    == matches_from(self@, pattern_vec_chars@, 0),
            decreases n - next_start_pos,
        {
            let res = self.find_vec(pattern_vec_chars, next_start_pos, None);
            match res {
                Some(index) => {
                    proof {
                        lemma_matches_skip(self@, pattern_vec_chars@, next_start_pos as int, index as int);
                        assert(as_ints(indexes_vec@.push(index)) =~= as_ints(indexes_vec@).push(index as int));
                        assert(as_ints(indexes_vec@.push(index)) + matches_from(self@, pattern_vec_chars@, index + plen)
                            =~= as_ints(indexes_vec@) + matches_from(self@, pattern_vec_chars@, index as int));
                    }
                    indexes_vec.push(index);
                    next_start_pos = index + plen;
                },
                None => {
                    proof {
                        lemma_matches_skip(self@, pattern_vec_chars@, next_start_pos as int, n as int);
                    }
                    assert(as_ints(indexes_vec@) =~= as_ints(indexes_vec@) + matches_from(self@, pattern_vec_chars@, next_start_pos as int));
                    return indexes_vec;
                },
            }
        }
        assert(as_ints(indexes_vec@) =~= as_ints(indexes_vec@) + matches_from(self@, pattern_vec_chars@, next_start_pos as int));
        indexes_vec
    }

    fn join_vec(p_vec_vec_chars: &[&[char]]) -> (r: Vec<char>) {
        let mut capacity: usize = 0;
        let mut k: usize = 0;
        while k < p_vec_vec_chars.len()
            invariant
                k <= p_vec_vec_chars@.len(),
            decreases p_vec_vec_chars@.len() - k,
        {
            capacity = capacity.saturating_add(p_vec_vec_chars[k].len());
            k += 1;
        }
        let mut vec_chars: Vec<char> = Vec::with_capacity(capacity);
        let mut k: usize = 0;
        while k < p_vec_vec_chars.len()
            invariant
                k <= p_vec_vec_chars@.len(),
                vec_chars@ == slice_views(p_vec_vec_chars@.subrange(0, k as int)).flatten_alt(),
            decreases p_vec_vec_chars@.len() - k,
        {
            let part: &[char] = p_vec_vec_chars[k];
            append_chars(&mut vec_chars, part);
            proof {
                let next = slice_views(p_vec_vec_chars@.subrange(0, k + 1));
                assert(next.drop_last() =~= slice_views(p_vec_vec_chars@.subrange(0, k as int)));
            }
            k += 1;
        }
        proof {
            assert(p_vec_vec_chars@.subrange(0, k as int) =~= p_vec_vec_chars@);
            slice_views(p_vec_vec_chars@).lemma_flatten_and_flatten_alt_are_equivalent();
        }
        vec_chars
    }

    fn join_str(p_vec_str: &[&str]) -> (r: Vec<char>) {
        let mut capacity: usize = 0;
        let mut k: usize = 0;
        while k < p_vec_str.len()
            invariant
                k <= p_vec_str@.len(),
            decreases p_vec_str@.len() - k,
        {
            capacity = capacity.saturating_add(p_vec_str[k].unicode_len());
            k += 1;
        }
        let mut vec_chars: Vec<char> = Vec::with_capacity(capacity);
        let mut k: usize = 0;
        while k < p_vec_str.len()
            invariant
                k <= p_vec_str@.len(),
                vec_chars@ == nfc_views(p_vec_str@.subrange(0, k as int)).flatten_alt(),
            decreases p_vec_str@.len() - k,
        {
            let part: &str = p_vec_str[k];
            vec_chars.push_str(part);
            proof {
                let next = nfc_views(p_vec_str@.subrange(0, k + 1));
                assert(next.drop_last() =~= nfc_views(p_vec_str@.subrange(0, k as int)));
            }
            k += 1;
        }
        proof {
            assert(p_vec_str@.subrange(0, k as int) =~= p_vec_str@);
            nfc_views(p_vec_str@).lemma_flatten_and_flatten_alt_are_equivalent();
        }
        vec_chars
    }

    fn eq_vec(&self, other: &[char]) -> (r: bool) {
        if self.len() != other.len() {
            return false;
        }
        let mut i: usize = 0;
        while i < self.len()
            invariant
                self@.len() == other@.len(),
                i <= self@.len(),
                forall|j: int| 0 <= j < i ==> self@[j] == other@[j],
            decreases self@.len() - i,
        {
            if self[i] != other[i] {
                return false;
            }
            i += 1;
        }
        assert(self@ =~= other@);
        true
    }

    fn eq_str(&self, p_str: &str) -> (r: bool) {
        let other = chars_of(p_str);
        self.eq_vec(other.as_slice())
    }

    fn push_vec(&mut self, p_vec_chars: &[char]) {
        append_chars(self, p_vec_chars);
    }

    fn push_str(&mut self, p_str: &str) {
        let vec_chars = nfc_chars(p_str);
        append_chars(self, vec_chars.as_slice());
    }

    fn push_str_start(&mut self, p_str: &str) {
        let mut vec_chars = nfc_chars(p_str);
        append_chars(&mut vec_chars, self.as_slice());
        *self = vec_chars;
    }

    fn push_vec_start(&mut self, other_vec: &Vec<char>) {
        let mut vec_tmp = other_vec.clone();
        append_chars(&mut vec_tmp, self.as_slice());
        *self = vec_tmp;
    }

    fn insert_str(&mut self, p_str: &str, at_pos: usize) -> (r: Result<(), String>) {
        let vec_t1 = nfc_chars(p_str);
        self.insert_vec(&vec_t1, at_pos)
    }

    fn insert_vec(&mut self, other_vec: &Vec<char>, at_pos: usize) -> (r: Result<(), String>) {
        if at_pos >= self.len() {
            return Err(String::from_str("Error: parameter at_pos must be lower than the length"));
        }
        let n = self.len();
        let mut vec_tmp: Vec<char> = Vec::new();
        append_chars(&mut vec_tmp, slice_subrange(self.as_slice(), 0, at_pos));
        append_chars(&mut vec_tmp, other_vec.as_slice());
        append_chars(&mut vec_tmp, slice_subrange(self.as_slice(), at_pos, n));
        *self = vec_tmp;
        Ok(())
    }

    fn trim_start(&mut self) {
        let n = self.len();
        let mut i: usize = 0;
        assert(self@.subrange(0, n as int) =~= self@);
        while i < n && is_whitespace_char(self[i])
            invariant
                n == self@.len(),
                i <= n,
                trim_start_of(self@) == trim_start_of(self@.subrange(i as int, n as int)),
            decreases n - i,
        {
            assert(self@.subrange(i as int, n as int).drop_first() =~= self@.subrange(i + 1, n as int));
            i += 1;
        }
        let tail = slice_to_vec(slice_subrange(self.as_slice(), i, n));
        *self = tail;
    }

    fn trim_end(&mut self) {
        while self.len() > 0 && is_whitespace_char(self[self.len() - 1])
            invariant
                trim_end_of(self@) == trim_end_of(old(self)@),
            decreases self@.len(),
        {
            let ghost before = self@;
            self.pop();
            assert(self@ =~= before.drop_last());
        }
    }

    fn trim(&mut self) {
        self.trim_start();
        self.trim_end();
    }

    fn find_str(&self, p_str: &str, start_pos: usize, end_pos: Option<usize>) -> (r: Option<usize>) {
        let pattern_vec_chars = nfc_chars(p_str);
        self.find_vec(&pattern_vec_chars, start_pos, end_pos)
    }

    fn contains_vec(&self, p_vec_chars: &Vec<char>) -> (r: bool) {
        let res = self.find_vec(p_vec_chars, 0, None);
        match res {
            Some(_) => true,
            None => {
                assert forall|i: int| !is_match_at(self@, p_vec_chars@, i) by {
                    if is_match_at(self@, p_vec_chars@, i) {
                        assert(0 <= i < self@.len());
                    }
                }
                false
            },
        }
    }

    fn contains_str(&self, p_str: &str) -> (r: bool) {
        let vec_chars = nfc_chars(p_str);
        self.contains_vec(&vec_chars)
    }

    fn start_with_vec(&self, pattern_vec_chars: &[char]) -> (r: bool) {
        let m = pattern_vec_chars.len();
        if m > self.len() {
            return false;
        }
        let mut i: usize = 0;
        while i < m
            invariant
                m == pattern_vec_chars@.len(),
                m <= self@.len(),
                i <= m,
                forall|j: int| 0 <= j < i ==> self@[j] == pattern_vec_chars@[j],
            decreases m - i,
        {
            if self[i] != pattern_vec_chars[i] {
                assert(self@.subrange(0, m as int)[i as int] != pattern_vec_chars@[i as int]);
                return false;
            }
            i += 1;
        }
        assert(self@.subrange(0, m as int) =~= pattern_vec_chars@);
        true
    }

    fn start_with_str(&self, pattern_str: &str) -> (r: bool) {
        let pattern_vec_chars = nfc_chars(pattern_str);
        self.start_with_vec(pattern_vec_chars.as_slice())
    }

    fn ends_with_vec(&self, pattern_vec_chars: &[char]) -> (r: bool) {
        let m = pattern_vec_chars.len();
        let n = self.len();
        if m > n {
            return false;
        }
        let base = n - m;
        let mut i: usize = 0;
        while i < m
            invariant
                m == pattern_vec_chars@.len(),
                n == self@.len(),
                base == n - m,
                i <= m,
                forall|j: int| 0 <= j < i ==> self@[base + j] == pattern_vec_chars@[j],
            decreases m - i,
        {
            if self[base + i] != pattern_vec_chars[i] {
                assert(self@.subrange(base as int, n as int)[i as int] != pattern_vec_chars@[i as int]);
                return false;
            }
            i += 1;
        }
        assert(self@.subrange(base as int, n as int) =~= pattern_vec_chars@);
        true
    }

    fn ends_with_str(&self, pattern_str: &str) -> (r: bool) {
        let pattern_vec_chars = nfc_chars(pattern_str);
        self.ends_with_vec(pattern_vec_chars.as_slice())
    }

    fn find_str_all(&self, pattern_str: &str) -> (r: Vec<usize>) {
        let pattern_vec_chars = nfc_chars(pattern_str);
        self.find_vec_all(&pattern_vec_chars)
    }

    fn replace_vec(
        &mut self,
        match_pattern_vec: &Vec<char>,
        replace_pattern_vec: &Vec<char>,
        start_pos: usize,
        end_pos: Option<usize>,
    ) -> (r: Option<usize>) {
        let res = self.find_vec(match_pattern_vec, start_pos, end_pos);
        match res {
            Some(index) => {
                let n = self.len();
                let mut target: Vec<char> = Vec::new();
                append_chars(&mut target, slice_subrange(self.as_slice(), 0, index));
                append_chars(&mut target, replace_pattern_vec.as_slice());
                append_chars(
                    &mut target,
                    slice_subrange(self.as_slice(), index + match_pattern_vec.len(), n),
                );
                *self = target;
                Some(index)
            },
            None => None,
        }
    }

    fn replace_str(
        &mut self,
        match_pattern_str: &str,
        replace_pattern_str: &str,
        start_pos: usize,
        end_pos: Option<usize>,
    ) -> (r: Option<usize>) {
        let match_pattern_vec = nfc_chars(match_pattern_str);
        let replace_pattern_vec = nfc_chars(replace_pattern_str);
        self.replace_vec(&match_pattern_vec, &replace_pattern_vec, start_pos, end_pos)
    }

    fn replace_vec_all(&mut self, match_pattern_vec: &Vec<char>, replace_pattern_vec: &Vec<char>) -> (r:
        Option<usize>) {
        let ghost t = self@;
        let ghost m = match_pattern_vec@;
        let ghost rep = replace_pattern_vec@;
        let n = self.len();
        let plen = match_pattern_vec.len();
        if plen == 0 {
            return None;
        }
        let mut target: Vec<char> = Vec::new();
        let mut num_matches: usize = 0;
        let mut next_start_pos: usize = 0;
        while next_start_pos < n
            invariant
                t == self@,
                m == match_pattern_vec@,
                rep == replace_pattern_vec@,
                n == t.len(),
                plen == m.len(),
                plen > 0,
                next_start_pos <= n,
                num_matches <= next_start_pos,
                target@ + replaced_from(t, m, rep, next_start_pos as int) == replaced_from(t, m, rep, 0),
                num_matches + matches_from(t, m, next_start_pos as int).len() == matches_from(t, m, 0).len(),
            decreases n - next_start_pos,
        {
            let res = self.find_vec(match_pattern_vec, next_start_pos, None);
            match res {
                Some(index) => {
                    proof {
                        lemma_replaced_skip(t, m, rep, next_start_pos as int, index as int);
                        lemma_matches_skip(t, m, next_start_pos as int, index as int);
                    }
                    let ghost before = target@;
                    append_chars(&mut target, slice_subrange(self.as_slice(), next_start_pos, index));
                    append_chars(&mut target, replace_pattern_vec.as_slice());
                    assert(target@ + replaced_from(t, m, rep, index + plen) =~= before + (t.subrange(next_start_pos as int, index as int) + replaced_from(t, m, rep, index as int)));
                    num_matches += 1;
                    next_start_pos = index + plen;
                },
                None => {
                    proof {
                        lemma_replaced_skip(t, m, rep, next_start_pos as int, n as int);
                        lemma_matches_skip(t, m, next_start_pos as int, n as int);
                    }
                    let ghost before = target@;
                    append_chars(&mut target, slice_subrange(self.as_slice(), next_start_pos, n));
                    assert(target@ + replaced_from(t, m, rep, n as int) =~= before + (t.subrange(next_start_pos as int, n as int) + replaced_from(t, m, rep, n as int)));
                    next_start_pos = n;
                },
            }
        }
        assert(target@ =~= target@ + replaced_from(t, m, rep, next_start_pos as int));
        if num_matches == 0 {
            return None;
        }
        *self = target;
        Some(num_matches)
    }

    fn replace_str_all(&mut self, match_pattern_str: &str, replace_pattern_str: &str) -> (r: Option<usize>) {
        let match_pattern_vec = nfc_chars(match_pattern_str);
        let replace_pattern_vec = nfc_chars(replace_pattern_str);
        self.replace_vec_all(&match_pattern_vec, &replace_pattern_vec)
    }

    fn split_vec(&self, at_pattern_vec: &Vec<char>) -> (r: Vec<&[char]>) {
        let ghost t = self@;
        let ghost m = at_pattern_vec@;
        let n = self.len();
        let plen = at_pattern_vec.len();
        let mut res_vec: Vec<&[char]> = Vec::new();
        if plen == 0 {
            return res_vec;
        }
        let mut num_matches: usize = 0;
        let mut next_start_pos: usize = 0;
        while next_start_pos < n
            invariant
                t == self@,
                m == at_pattern_vec@,
                n == t.len(),
                plen == m.len(),
                plen > 0,
                next_start_pos <= n,
                num_matches <= next_start_pos,
                slice_views(res_vec@) + pieces_from(t, m, next_start_pos as int, next_start_pos as int)
                    == pieces_from(t, m, 0, 0),
                num_matches + matches_from(t, m, next_start_pos as int).len() == matches_from(t, m, 0).len(),
            decreases n - next_start_pos,
        {
            let res = self.find_vec(at_pattern_vec, next_start_pos, None);
            let ghost before = slice_views(res_vec@);
            match res {
                Some(index) => {
                    proof {
                        lemma_pieces_skip(t, m, next_start_pos as int, next_start_pos as int, index as int);
                        lemma_matches_skip(t, m, next_start_pos as int, index as int);
                    }
                    if next_start_pos < index {
                        let slice_tmp = slice_subrange(self.as_slice(), next_start_pos, index);
                        res_vec.push(slice_tmp);
                    }
                    assert(slice_views(res_vec@) =~= before + non_empty_piece(t.subrange(next_start_pos as int, index as int)));
                    num_matches += 1;
                    next_start_pos = index + plen;
                },
                None => {
                    proof {
                        lemma_pieces_skip(t, m, next_start_pos as int, next_start_pos as int, n as int);
                        lemma_matches_skip(t, m, next_start_pos as int, n as int);
                    }
                    let slice_tmp = slice_subrange(self.as_slice(), next_start_pos, n);
                    res_vec.push(slice_tmp);
                    assert(slice_views(res_vec@) =~= before + non_empty_piece(t.subrange(next_start_pos as int, n as int)));
                    assert(pieces_from(t, m, n as int, n as int) =~= Seq::<Seq<char>>::empty());
                    next_start_pos = n;
                },
            }
        }
        assert(pieces_from(t, m, n as int, n as int) =~= Seq::<Seq<char>>::empty());
        assert(slice_views(res_vec@) =~= slice_views(res_vec@) + pieces_from(t, m, n as int, n as int));
        if num_matches == 0 {
            return Vec::new();
        }
        res_vec
    }

    fn split_str(&self, at_pattern_str: &str) -> (r: Vec<&[char]>) {
        let pattern = nfc_chars(at_pattern_str);
        self.split_vec(&pattern)
    }
    fn map_str(&mut self, map: &[(&str, &str)]) -> (r: Vec<usize>) {
        let ghost t = self@;
        let mut res: Vec<usize> = Vec::new();
        let mut k: usize = 0;
        while k < map.len()
            invariant
                k <= map@.len(),
                res@.len() == k,
                self@ == after_pairs(t, map@, k as int),
                forall|j: int|
                    0 <= j < k ==> #[trigger] res@[j] == matches_from(
                        after_pairs(t, map@, j),
                        nfc_of(map@[j].0@),
                        0,
                    ).len(),
            decreases map@.len() - k,
        {
            let (src_str, target_str) = map[k];
            let replaced = self.replace_str_all(src_str, target_str);
            match replaced {
                Some(num_replaces) => res.push(num_replaces),
                None => res.push(0),
            }
            k += 1;
        }
        res
    }

}

/// The smaller of `x` and `n`.
pub open spec fn clamp_to(x: int, n: int) -> int {
    if x < n {
        x
    } else {
        n
    }
}

/// Code-point addressing of string slices.
pub trait StringUtils {
    /// The code points of the string.
    spec fn code_points(&self) -> Seq<char>;

    /// The code points `[start, start + len)`, cut at the end of the string.
    fn substring(&self, start: usize, len: usize) -> (r: &str)
        ensures
            r@ == self.code_points().subrange(
                clamp_to(start as int, self.code_points().len() as int),
                clamp_to(start + len, self.code_points().len() as int),
            ),
    ;

    /// The code points in `range`, cut at the end of the string.
    fn slice(&self, range: core::ops::Range<usize>) -> (r: &str)
        requires
            range.start <= range.end,
        ensures
            r@ == self.code_points().subrange(
                clamp_to(range.start as int, self.code_points().len() as int),
                clamp_to(range.end as int, self.code_points().len() as int),
            ),
    ;

    /// The code points of the string in Normalization Form C.
    fn get_vec_chars(&self) -> (r: Vec<char>)
        ensures
            r@ == nfc_of(self.code_points()),
    ;
}

impl StringUtils for str {
    open spec fn code_points(&self) -> Seq<char> {
        self@
    }

    fn substring(&self, start: usize, len: usize) -> (r: &str) {
        let n = self.unicode_len();
        let from: usize = if start < n {
            start
        } else {
            n
        };
        let to: usize = if len < n - from {
            from + len
        } else {
            n
        };
        self.substring_char(from, to)
    }

    fn slice(&self, range: core::ops::Range<usize>) -> (r: &str) {
        let start = range.start;
        let len = range.end - range.start;
        self.substring(start, len)
    }

    fn get_vec_chars(&self) -> (r: Vec<char>) {
        nfc_chars(self)
    }
}

/// Conversion of a code-point buffer to a `String`.
pub trait StringUtilsVecChars {
    /// The code points of the buffer.
    spec fn code_points(&self) -> Seq<char>;

    /// A string of the buffer's code points.
    fn to_string(&self) -> (r: String)
        ensures
            r@ == self.code_points(),
    ;

    /// Fills `buf` with the buffer's code points and hands it back.
    fn to_string_buf<'a>(&self, buf: &'a mut String) -> (r: &'a String)
        ensures
            final(buf)@ == self.code_points(),
            r@ == self.code_points(),
    ;
}

impl StringUtilsVecChars for Vec<char> {
    open spec fn code_points(&self) -> Seq<char> {
        self@
    }

    fn to_string(&self) -> (r: String) {
        string_of(self.as_slice())
    }

    fn to_string_buf<'a>(&self, buf: &'a mut String) -> (r: &'a String) {
        *buf = string_of(self.as_slice());
        buf
    }
}

/// Conversions of a slice of code points.
pub trait StringUtilsSlices {
    /// The code points of the slice.
    spec fn code_points(&self) -> Seq<char>;

    /// A string of the slice's code points.
    fn to_string(&self) -> (r: String)
        ensures
            r@ == self.code_points(),
    ;

    /// Fills `buf` with the slice's code points and hands it back.
    fn to_string_buf<'a>(&self, buf: &'a mut String) -> (r: &'a String)
        ensures
            final(buf)@ == self.code_points(),
            r@ == self.code_points(),
    ;

    /// An owned copy of the slice.
    fn to_vec_chars(&self) -> (r: Vec<char>)
        ensures
            r@ == self.code_points(),
    ;
}

impl StringUtilsSlices for [char] {
    open spec fn code_points(&self) -> Seq<char> {
        self@
    }

    fn to_string(&self) -> (r: String) {
        string_of(self)
    }

    fn to_string_buf<'a>(&self, buf: &'a mut String) -> (r: &'a String) {
        *buf = string_of(self);
        buf
    }

    fn to_vec_chars(&self) -> (r: Vec<char>) {
        slice_to_vec(self)
    }
}

} // verus!
