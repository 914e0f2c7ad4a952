//! The mathematical model of pattern matching over code points: where a
//! pattern matches, the left-to-right non-overlapping scan, and what
//! replacing and splitting along that scan produce.
use vstd::prelude::*;

verus! {

/// `pat` occurs in `text` starting at `i` (an empty pattern occurs nowhere).
pub open spec fn is_match_at(text: Seq<char>, pat: Seq<char>, i: int) -> bool {
    &&& pat.len() > 0
    &&& 0 <= i
    &&& i + pat.len() <= text.len()
    &&& text.subrange(i, i + pat.len()) == pat
}

/// No occurrence of `pat` starts in `[lo, hi)`.
pub open spec fn no_match_in(text: Seq<char>, pat: Seq<char>, lo: int, hi: int) -> bool {
    forall|j: int| lo <= j < hi ==> !#[trigger] is_match_at(text, pat, j)
}

/// The match starts found by scanning from `s`: at each position, a match is
/// taken and the scan resumes after its end; otherwise the scan moves on by one.
pub open spec fn matches_from(text: Seq<char>, pat: Seq<char>, s: int) -> Seq<int>
    decreases text.len() - s,
{
    if s < 0 || s >= text.len() || pat.len() == 0 {
        seq![]
    } else if is_match_at(text, pat, s) {
        seq![s] + matches_from(text, pat, s + pat.len())
    } else {
        matches_from(text, pat, s + 1)
    }
}

/// `text` from `s` on, with each match of the scan replaced by `rep`.
pub open spec fn replaced_from(text: Seq<char>, pat: Seq<char>, rep: Seq<char>, s: int) -> Seq<char>
    decreases text.len() - s,
{
    if s < 0 || s >= text.len() {
        seq![]
    } else if pat.len() == 0 {
        text.subrange(s, text.len() as int)
    } else if is_match_at(text, pat, s) {
        rep + replaced_from(text, pat, rep, s + pat.len())
    } else {
        seq![text[s]] + replaced_from(text, pat, rep, s + 1)
    }
}

/// `[g]` when `g` is not empty, else nothing.
pub open spec fn non_empty_piece(g: Seq<char>) -> Seq<Seq<char>> {
    if g.len() > 0 {
        seq![g]
    } else {
        seq![]
    }
}

/// The non-empty pieces between the matches of the scan, where the current
/// piece began at `piece_start` and the scan stands at `s`.
pub open spec fn pieces_from(text: Seq<char>, pat: Seq<char>, piece_start: int, s: int) -> Seq<
    Seq<char>,
>
    decreases text.len() - s,
{
    if s < 0 || s >= text.len() || pat.len() == 0 {
        non_empty_piece(text.subrange(piece_start, text.len() as int))
    } else if is_match_at(text, pat, s) {
        non_empty_piece(text.subrange(piece_start, s)) + pieces_from(
            text,
            pat,
            s + pat.len(),
            s + pat.len(),
        )
    } else {
        pieces_from(text, pat, piece_start, s + 1)
    }
}

/// What splitting `text` at `pat` yields: nothing when `pat` does not occur,
/// else the non-empty pieces between the matches of the scan.
pub open spec fn split_pieces(text: Seq<char>, pat: Seq<char>) -> Seq<Seq<char>> {
    if matches_from(text, pat, 0).len() == 0 {
        seq![]
    } else {
        pieces_from(text, pat, 0, 0)
    }
}

/// Skipping a stretch without matches does not change the scan.
pub proof fn lemma_matches_skip(text: Seq<char>, pat: Seq<char>, s: int, h: int)
    requires
        0 <= s <= h,
        no_match_in(text, pat, s, h),
    ensures
        matches_from(text, pat, s) == matches_from(text, pat, h),
    decreases h - s,
{
    if s < h && s < text.len() && pat.len() > 0 {
        assert(!is_match_at(text, pat, s));
        lemma_matches_skip(text, pat, s + 1, h);
    }
}

/// A stretch without matches is copied as it stands.
pub proof fn lemma_replaced_skip(text: Seq<char>, pat: Seq<char>, rep: Seq<char>, s: int, h: int)
    requires
        0 <= s <= h <= text.len(),
        pat.len() > 0,
        no_match_in(text, pat, s, h),
    ensures
        replaced_from(text, pat, rep, s) == text.subrange(s, h) + replaced_from(
            text,
            pat,
            rep,
            h,
        ),
    decreases h - s,
{
    if s < h {
        assert(!is_match_at(text, pat, s));
        lemma_replaced_skip(text, pat, rep, s + 1, h);
        assert(text.subrange(s, h) =~= seq![text[s]] + text.subrange(s + 1, h));
    } else {
        assert(text.subrange(s, h) =~= Seq::<char>::empty());
    }
}

/// Skipping a stretch without matches does not change the pieces.
pub proof fn lemma_pieces_skip(text: Seq<char>, pat: Seq<char>, ps: int, s: int, h: int)
    requires
        0 <= s <= h,
        no_match_in(text, pat, s, h),
    ensures
        pieces_from(text, pat, ps, s) == pieces_from(text, pat, ps, h),
    decreases h - s,
{
    if s < h && s < text.len() && pat.len() > 0 {
        assert(!is_match_at(text, pat, s));
        lemma_pieces_skip(text, pat, ps, s + 1, h);
    }
}

/// The scan finds exactly the non-overlapping matches from `s` on: each
/// position it yields is a match at or after `s`; they ascend, each starting
/// at or after the end of the one before; and every match it passes over
/// overlaps one that it yields.
pub proof fn lemma_scan_matches(text: Seq<char>, pat: Seq<char>, s: int)
    requires
        0 <= s,
    ensures
        forall|k: int|
            0 <= k < matches_from(text, pat, s).len() ==> #[trigger] is_match_at(
                text,
                pat,
                matches_from(text, pat, s)[k],
            ) && matches_from(text, pat, s)[k] >= s,
        forall|k: int|
            0 <= k < matches_from(text, pat, s).len() - 1 ==> #[trigger] matches_from(
                text,
                pat,
                s,
            )[k] + pat.len() <= matches_from(text, pat, s)[k + 1],
        forall|j: int|
            j >= s && #[trigger] is_match_at(text, pat, j) ==> exists|k: int|
                0 <= k < matches_from(text, pat, s).len() && #[trigger] matches_from(text, pat, s)[k]
                    <= j < matches_from(text, pat, s)[k] + pat.len(),
    decreases text.len() - s,
{
    let m = matches_from(text, pat, s);
    if s >= text.len() || pat.len() == 0 {
    } else if is_match_at(text, pat, s) {
        let rest = matches_from(text, pat, s + pat.len());
        lemma_scan_matches(text, pat, s + pat.len());
        assert(m == seq![s] + rest);
        assert forall|k: int| 0 <= k < m.len() implies #[trigger] is_match_at(text, pat, m[k])
            && m[k] >= s by {
            if k > 0 {
                assert(m[k] == rest[k - 1]);
            }
        }
        assert forall|k: int| 0 <= k < m.len() - 1 implies #[trigger] m[k] + pat.len() <= m[k
            + 1] by {
            assert(m[k + 1] == rest[k]);
            assert(is_match_at(text, pat, rest[k]));
            if k > 0 {
                assert(m[k] == rest[k - 1]);
            }
        }
        assert forall|j: int| j >= s && #[trigger] is_match_at(text, pat, j) implies exists|k: int|
            0 <= k < m.len() && #[trigger] m[k] <= j < m[k] + pat.len() by {
            if j < s + pat.len() {
                assert(m[0] == s);
            } else {
                let k2 = choose|k2: int|
                    0 <= k2 < rest.len() && #[trigger] rest[k2] <= j < rest[k2] + pat.len();
                assert(m[k2 + 1] == rest[k2]);
            }
        }
    } else {
        lemma_scan_matches(text, pat, s + 1);
        assert(m == matches_from(text, pat, s + 1));
        assert forall|k: int| 0 <= k < m.len() implies #[trigger] is_match_at(text, pat, m[k])
            && m[k] >= s by {
            assert(is_match_at(text, pat, matches_from(text, pat, s + 1)[k]));
        }
        assert forall|j: int| j >= s && #[trigger] is_match_at(text, pat, j) implies exists|k: int|
            0 <= k < m.len() && #[trigger] m[k] <= j < m[k] + pat.len() by {
            assert(j >= s + 1);
        }
    }
}

/// No `'a'` in `q` is directly followed by a `'b'`.
pub open spec fn no_ab(q: Seq<char>) -> bool {
    forall|j: int| 0 <= j < q.len() - 1 ==> !(#[trigger] q[j] == 'a' && q[j + 1] == 'b')
}

proof fn lemma_replaced_ab_from(text: Seq<char>, s: int)
    requires
        0 <= s,
    ensures
        no_ab(replaced_from(text, seq!['a', 'b'], seq!['X', 'Y', 'Z'], s)),
        replaced_from(text, seq!['a', 'b'], seq!['X', 'Y', 'Z'], s).len() > 0 ==> {
            ||| replaced_from(text, seq!['a', 'b'], seq!['X', 'Y', 'Z'], s)[0] == 'X'
            ||| (s < text.len() && replaced_from(text, seq!['a', 'b'], seq!['X', 'Y', 'Z'], s)[0]
                == text[s])
        },
    decreases text.len() - s,
{
    let ab = seq!['a', 'b'];
    let xyz = seq!['X', 'Y', 'Z'];
    let r = replaced_from(text, ab, xyz, s);
    if s >= text.len() {
    } else if is_match_at(text, ab, s) {
        let rest = replaced_from(text, ab, xyz, s + 2);
        lemma_replaced_ab_from(text, s + 2);
        assert(r == xyz + rest);
        assert forall|j: int| 0 <= j < r.len() - 1 implies !(#[trigger] r[j] == 'a' && r[j + 1]
            == 'b') by {
            if j >= 3 {
                assert(r[j] == rest[j - 3] && r[j + 1] == rest[j - 2]);
            }
        }
    } else {
        let rest = replaced_from(text, ab, xyz, s + 1);
        lemma_replaced_ab_from(text, s + 1);
        assert(r == seq![text[s]] + rest);
        assert forall|j: int| 0 <= j < r.len() - 1 implies !(#[trigger] r[j] == 'a' && r[j + 1]
            == 'b') by {
            if j >= 1 {
                assert(r[j] == rest[j - 1] && r[j + 1] == rest[j]);
            } else if text[s] == 'a' && rest[0] == 'b' {
                assert(rest[0] == text[s + 1]);
                assert(text.subrange(s, s + 2) =~= ab);
            }
        }
    }
}

/// Replacing every "ab" of a text by "XYZ" leaves no "ab": a scan of the
/// result finds none.
pub proof fn lemma_replace_ab_by_xyz(text: Seq<char>)
    ensures
        matches_from(replaced_from(text, seq!['a', 'b'], seq!['X', 'Y', 'Z'], 0), seq!['a', 'b'], 0).len()
            == 0,
{
    let ab = seq!['a', 'b'];
    let r = replaced_from(text, ab, seq!['X', 'Y', 'Z'], 0);
    lemma_replaced_ab_from(text, 0);
    assert forall|j: int| 0 <= j < r.len() implies !#[trigger] is_match_at(r, ab, j) by {
        if is_match_at(r, ab, j) {
            assert(r.subrange(j, j + 2)[0] == r[j]);
            assert(r.subrange(j, j + 2)[1] == r[j + 1]);
        }
    }
    lemma_matches_skip(r, ab, 0, r.len() as int);
}

} // verus!
