//! Case-insensitive substring search producing sorted, non-overlapping byte
//! ranges.
use vstd::prelude::*;
use vstd::string::*;
use vstd::utf8::*;

use crate::text::{lower_of, to_lower};

verus! {

/// `p` occurs in `t` at `i`.
pub open spec fn occurs_at(t: Seq<u8>, p: Seq<u8>, i: int) -> bool {
    0 <= i && i + p.len() <= t.len() && t.subrange(i, i + p.len()) == p
}

/// The left-to-right non-overlapping occurrences of `p` in `t` from offset
/// `i` on, as (start, end) ranges: after each match the scan resumes at its
/// end. An empty `p` has none.
pub open spec fn matches_from(t: Seq<u8>, p: Seq<u8>, i: int) -> Seq<(usize, usize)>
    decreases t.len() - i,
{
    if p.len() == 0 || i < 0 || i + p.len() > t.len() {
        seq![]
    } else if occurs_at(t, p, i) {
        seq![(i as usize, (i + p.len()) as usize)] + matches_from(t, p, i + p.len())
    } else {
        matches_from(t, p, i + 1)
    }
}

/// Every range found from `i` on is an occurrence within `t` starting at or
/// after `i`, and the ranges are sorted and do not overlap.
pub proof fn lemma_matches_well_formed(t: Seq<u8>, p: Seq<u8>, i: int)
    requires
        0 <= i,
        t.len() <= usize::MAX,
    ensures
        forall|k: int|
            0 <= k < matches_from(t, p, i).len() ==> i <= (#[trigger] matches_from(t, p, i)[k]).0
                && matches_from(t, p, i)[k].1 == matches_from(t, p, i)[k].0 + p.len()
                && matches_from(t, p, i)[k].1 <= t.len() && occurs_at(
                t,
                p,
                matches_from(t, p, i)[k].0 as int,
            ),
        forall|k: int, l: int|
            0 <= k < l < matches_from(t, p, i).len() ==> matches_from(t, p, i)[k].1
                <= matches_from(t, p, i)[l].0,
    decreases t.len() - i,
{
    if p.len() == 0 || i + p.len() > t.len() {
    } else if occurs_at(t, p, i) {
        lemma_matches_well_formed(t, p, i + p.len());
        let rest = matches_from(t, p, i + p.len());
        let all = matches_from(t, p, i);
        assert(all == seq![(i as usize, (i + p.len()) as usize)] + rest);
        assert forall|k: int, l: int| 0 <= k < l < all.len() implies all[k].1 <= all[l].0 by {
            if k > 0 {
                assert(all[k] == rest[k - 1]);
            }
            assert(all[l] == rest[l - 1]);
        }
        assert forall|k: int| 0 <= k < all.len() implies i <= (#[trigger] all[k]).0 && all[k].1
            == all[k].0 + p.len() && all[k].1 <= t.len() && occurs_at(t, p, all[k].0 as int) by {
            if k > 0 {
                assert(all[k] == rest[k - 1]);
            }
        }
    } else {
        lemma_matches_well_formed(t, p, i + 1);
        assert(matches_from(t, p, i) == matches_from(t, p, i + 1));
    }
}

/// Whether `pattern` occurs in `text` at `at`.
fn occurs_at_exec(text: &[u8], pattern: &[u8], at: usize) -> (r: bool)
    requires
        at + pattern@.len() <= text@.len(),
    ensures
        r == occurs_at(text@, pattern@, at as int),
{
    let m = pattern.len();
    let n = text.len();
    let mut j: usize = 0;
    while j < m
        invariant
            j <= m,
            n == text@.len(),
            m == pattern@.len(),
            at + m <= text@.len(),
            forall|k: int| 0 <= k < j ==> text@[at + k] == pattern@[k],
        decreases m - j,
    {
        if text[at + j] != pattern[j] {
            proof {
                assert(text@.subrange(at as int, at + m)[j as int] != pattern@[j as int]);
            }
            return false;
        }
        j += 1;
    }
    proof {
        assert(text@.subrange(at as int, at + m) =~= pattern@);
    }
    true
}

/// The non-overlapping occurrences of `pattern` in `text`, compared byte for
/// byte; both are already case-folded.
pub fn find_all_folded(text: &[u8], pattern: &[u8]) -> (r: Vec<(usize, usize)>)
    ensures
        r@ == matches_from(text@, pattern@, 0),
{
    let n = text.len();
    let m = pattern.len();
    let mut results: Vec<(usize, usize)> = Vec::new();
    if m == 0 {
        return results;
    }
    let mut i: usize = 0;
    while i <= n && m <= n - i
        invariant
            m == pattern@.len(),
            n == text@.len(),
            m > 0,
            results@ + matches_from(text@, pattern@, i as int) == matches_from(
                text@,
                pattern@,
                0,
            ),
        decreases n + 1 - i,
    {
        if occurs_at_exec(text, pattern, i) {
            let ghost before = results@;
            results.push((i, i + m));
            proof {
                assert(results@ + matches_from(text@, pattern@, (i + m) as int) =~= before
                    + matches_from(text@, pattern@, i as int));
            }
            i = i + m;
        } else {
            i = i + 1;
        }
    }
    proof {
        assert(results@ + matches_from(text@, pattern@, i as int) =~= results@);
    }
    results
}

/// Case-insensitive search: the non-overlapping occurrences of the
/// lowercased `pattern` in the lowercased `text`, as byte ranges of the
/// lowercased text. An empty pattern has no matches.
pub fn find_all_matches(text: &str, pattern: &str) -> (r: Vec<(usize, usize)>)
    ensures
        pattern@.len() == 0 ==> r@.len() == 0,
        pattern@.len() > 0 ==> r@ == matches_from(
            encode_utf8(lower_of(text@)),
            encode_utf8(lower_of(pattern@)),
            0,
        ),
{
    if pattern.is_empty() {
        return Vec::new();
    }
    let text_lower = to_lower(text);
    let pattern_lower = to_lower(pattern);
    find_all_folded(text_lower.as_str().as_bytes(), pattern_lower.as_str().as_bytes())
}

} // verus!
