//! The sliding-window maximum / minimum tracker.
//!
//! The tracker keeps a monotonic deque of candidates: the entries of the
//! window that no later entry replaces. The front candidate is the extremum of
//! the whole window, and every entry enters and leaves the deque at most once.

use super::{
    after_pushes, expired_prefix, in_window, keep_last, lemma_count_window_retains_last,
    lemma_prune_retains_window, spec_in_window, spec_prune, spec_push, timestamps_sorted, Entry,
};
use crate::indicators::window::{Window, WindowConfig};
use vstd::std_specs::convert::IntoSpec;
use std::collections::VecDeque;
use vstd::prelude::*;

verus! {

/// Whether `new_value` is at least as good as `old_value`: at least as large
/// for a maximum, at least as small for a minimum.
pub open spec fn replaces(track_max: bool, new_value: i64, old_value: i64) -> bool {
    if track_max {
        new_value >= old_value
    } else {
        new_value <= old_value
    }
}

/// `m` is a value of `s` that is at least as good as every value of `s`.
pub open spec fn is_extremum(s: Seq<Entry>, track_max: bool, m: i64) -> bool {
    &&& exists|i: int| 0 <= i < s.len() && (#[trigger] s[i]).1 == m
    &&& forall|i: int| 0 <= i < s.len() ==> replaces(track_max, m, (#[trigger] s[i]).1)
}

/// The maximum or minimum of the values of `s`; `None` when `s` is empty.
pub open spec fn extremum(s: Seq<Entry>, track_max: bool) -> Option<i64>
    decreases s.len(),
{
    if s.len() == 0 {
        None
    } else {
        match extremum(s.drop_last(), track_max) {
            None => Some(s.last().1),
            Some(m) => if replaces(track_max, s.last().1, m) {
                Some(s.last().1)
            } else {
                Some(m)
            },
        }
    }
}

/// The extremum of a non-empty sequence is one of its values and is at least
/// as good as all of them.
pub proof fn lemma_extremum_is_extremum(s: Seq<Entry>, track_max: bool)
    requires
        s.len() > 0,
    ensures
        extremum(s, track_max).is_some(),
        is_extremum(s, track_max, extremum(s, track_max).unwrap()),
    decreases s.len(),
{
    let before = s.drop_last();
    let m = extremum(s, track_max).unwrap();
    if before.len() == 0 {
        assert(s[s.len() - 1].1 == m);
    } else {
        lemma_extremum_is_extremum(before, track_max);
        let mb = extremum(before, track_max).unwrap();
        let i = choose|i: int| 0 <= i < before.len() && (#[trigger] before[i]).1 == mb;
        assert(before[i] == s[i]);
        if replaces(track_max, s.last().1, mb) {
            assert(s[s.len() - 1].1 == m);
        } else {
            assert(s[i].1 == m);
        }
        assert forall|j: int| 0 <= j < s.len() implies replaces(
            track_max,
            m,
            (#[trigger] s[j]).1,
        ) by {
            if j < before.len() {
                assert(before[j] == s[j]);
            }
        }
    }
}

/// A value of `s` that is at least as good as all of them is the extremum.
pub proof fn lemma_extremum_unique(s: Seq<Entry>, track_max: bool, m: i64)
    requires
        is_extremum(s, track_max, m),
    ensures
        extremum(s, track_max) == Some(m),
{
    lemma_extremum_is_extremum(s, track_max);
    let e = extremum(s, track_max).unwrap();
    let i = choose|i: int| 0 <= i < s.len() && (#[trigger] s[i]).1 == m;
    let j = choose|j: int| 0 <= j < s.len() && (#[trigger] s[j]).1 == e;
    assert(replaces(track_max, m, s[j].1));
    assert(replaces(track_max, e, s[i].1));
}

/// After any pushes into an empty count window of `n` bars, the extremum of
/// the window is the extremum of the last `n` values pushed.
pub proof fn lemma_extremum_of_last_pushes(pushes: Seq<Entry>, n: usize, track_max: bool)
    ensures
        extremum(after_pushes(pushes, Window::Bars(n)), track_max) == extremum(
            keep_last(pushes, n as int),
            track_max,
        ),
{
    lemma_count_window_retains_last(pushes, n);
}

/// The entry at `i` is a candidate: no later entry of the window replaces it.
pub open spec fn is_candidate(w: Seq<Entry>, track_max: bool, i: int) -> bool {
    &&& 0 <= i < w.len()
    &&& forall|j: int| i < j < w.len() ==> !replaces(track_max, (#[trigger] w[j]).1, w[i].1)
}

/// The number of candidates among the entries from index `i` on.
pub open spec fn candidates_from(w: Seq<Entry>, track_max: bool, i: int) -> nat
    decreases w.len() - i,
{
    if i < 0 || i >= w.len() {
        0
    } else {
        (if is_candidate(w, track_max, i) {
            1nat
        } else {
            0nat
        }) + candidates_from(w, track_max, i + 1)
    }
}

/// The number of entries of the window that no later entry replaces.
pub open spec fn candidate_count(w: Seq<Entry>, track_max: bool) -> nat {
    candidates_from(w, track_max, 0)
}

/// A candidate of the monotonic deque.
#[derive(Debug, Clone, Copy)]
struct Candidate {
    timestamp: i64,
    value: i64,
    /// In a count window: how many retained entries this candidate stands
    /// for, itself and the entries it replaced.
    span: usize,
}

/// The position before the entries that candidate `k` stands for.
spec fn lower(pos: Seq<int>, k: int) -> int {
    if k <= 0 {
        -1
    } else {
        pos[k - 1]
    }
}

/// The candidates `d` are entries of the window `w`, at the increasing
/// positions `pos`, and the last candidate is the last entry.
spec fn placed(w: Seq<Entry>, d: Seq<Candidate>, pos: Seq<int>) -> bool {
    &&& pos.len() == d.len()
    &&& (d.len() == 0 <==> w.len() == 0)
    &&& forall|k: int|
        0 <= k < d.len() ==> 0 <= #[trigger] pos[k] < w.len() && w[pos[k]] == (
            d[k].timestamp,
            d[k].value,
        )
    &&& forall|j: int, k: int| 0 <= j < k < d.len() ==> #[trigger] pos[j] < #[trigger] pos[k]
    &&& (d.len() > 0 ==> pos[d.len() - 1] == w.len() - 1)
}

/// No candidate replaces a candidate before it.
spec fn ordered(d: Seq<Candidate>, track_max: bool) -> bool {
    forall|j: int, k: int|
        0 <= j < k < d.len() ==> !replaces(track_max, (#[trigger] d[k]).value, (#[trigger] d[j]).value)
}

/// Each candidate replaces every entry between the candidate before it and
/// itself.
spec fn dominates(w: Seq<Entry>, d: Seq<Candidate>, pos: Seq<int>, track_max: bool) -> bool {
    forall|k: int, i: int|
        0 <= k < d.len() && lower(pos, k) < i <= pos[k] ==> replaces(
            track_max,
            (#[trigger] d[k]).value,
            (#[trigger] w[i]).1,
        )
}

/// The candidates `d`, at positions `pos` of the window `w`, are exactly the
/// entries that no later entry replaces.
spec fn skeleton(w: Seq<Entry>, d: Seq<Candidate>, pos: Seq<int>, track_max: bool) -> bool {
    &&& placed(w, d, pos)
    &&& ordered(d, track_max)
    &&& dominates(w, d, pos, track_max)
}

/// Each candidate's span is the distance to the candidate before it.
spec fn spans_match(d: Seq<Candidate>, pos: Seq<int>) -> bool {
    forall|k: int| 0 <= k < d.len() ==> (#[trigger] d[k]).span == pos[k] - lower(pos, k)
}

/// The candidate that stands for position `i`, searching from candidate `k`.
proof fn lemma_cover_from(pos: Seq<int>, n: int, i: int, k: int) -> (c: int)
    requires
        pos.len() > 0,
        forall|a: int, b: int| 0 <= a < b < pos.len() ==> #[trigger] pos[a] < #[trigger] pos[b],
        pos[pos.len() - 1] == n - 1,
        0 <= i < n,
        0 <= k < pos.len(),
        lower(pos, k) < i,
    ensures
        k <= c < pos.len(),
        lower(pos, c) < i <= pos[c],
    decreases pos.len() - k,
{
    if i <= pos[k] {
        k
    } else {
        if k + 1 >= pos.len() {
            assert(pos[k] == n - 1);
        }
        lemma_cover_from(pos, n, i, k + 1)
    }
}

/// Appending a candidate after the candidates it does not replace keeps the
/// candidates in place.
#[verifier::rlimit(50)]
proof fn lemma_push_placed(
    w0: Seq<Entry>,
    d0: Seq<Candidate>,
    pos0: Seq<int>,
    kept: int,
    c: Candidate,
)
    requires
        placed(w0, d0, pos0),
        0 <= kept <= d0.len(),
    ensures
        placed(
            w0.push((c.timestamp, c.value)),
            d0.take(kept).push(c),
            pos0.take(kept).push(w0.len() as int),
        ),
{
    let w1 = w0.push((c.timestamp, c.value));
    let d1 = d0.take(kept).push(c);
    let pos1 = pos0.take(kept).push(w0.len() as int);
    assert(d1.len() == kept + 1);
    assert forall|k: int| 0 <= k < d1.len() implies 0 <= #[trigger] pos1[k] < w1.len()
        && w1[pos1[k]] == (d1[k].timestamp, d1[k].value) by {
        if k < kept {
            assert(pos1[k] == pos0[k]);
            assert(d1[k] == d0[k]);
            assert(w1[pos0[k]] == w0[pos0[k]]);
        }
    }
    assert forall|j: int, k: int| 0 <= j < k < d1.len() implies #[trigger] pos1[j]
        < #[trigger] pos1[k] by {
        assert(pos1[j] == pos0[j]);
        if k < kept {
            assert(pos1[k] == pos0[k]);
            assert(pos0[j] < pos0[k]);
        }
    }
}

/// Appending a candidate after the candidates it does not replace keeps the
/// candidates strictly ordered.
proof fn lemma_push_ordered(d0: Seq<Candidate>, tm: bool, kept: int, c: Candidate)
    requires
        ordered(d0, tm),
        0 <= kept <= d0.len(),
        kept > 0 ==> !replaces(tm, c.value, d0[kept - 1].value),
    ensures
        ordered(d0.take(kept).push(c), tm),
{
    let d1 = d0.take(kept).push(c);
    assert forall|j: int, k: int| 0 <= j < k < d1.len() implies !replaces(
        tm,
        (#[trigger] d1[k]).value,
        (#[trigger] d1[j]).value,
    ) by {
        assert(d1[j] == d0[j]);
        if k < kept {
            assert(d1[k] == d0[k]);
            assert(!replaces(tm, d0[k].value, d0[j].value));
        } else {
            assert(d1[k] == c);
            if j < kept - 1 {
                assert(!replaces(tm, d0[kept - 1].value, d0[j].value));
            }
        }
    }
}

/// Appending a candidate that replaces every candidate it removes keeps every
/// entry of the window covered by a candidate that replaces it.
#[verifier::rlimit(50)]
proof fn lemma_push_dominates(
    w0: Seq<Entry>,
    d0: Seq<Candidate>,
    pos0: Seq<int>,
    tm: bool,
    kept: int,
    c: Candidate,
)
    requires
        placed(w0, d0, pos0),
        dominates(w0, d0, pos0, tm),
        0 <= kept <= d0.len(),
        forall|k: int| kept <= k < d0.len() ==> replaces(tm, c.value, (#[trigger] d0[k]).value),
    ensures
        dominates(
            w0.push((c.timestamp, c.value)),
            d0.take(kept).push(c),
            pos0.take(kept).push(w0.len() as int),
            tm,
        ),
{
    let w1 = w0.push((c.timestamp, c.value));
    let d1 = d0.take(kept).push(c);
    let pos1 = pos0.take(kept).push(w0.len() as int);
    assert forall|k: int, i: int|
        0 <= k < d1.len() && lower(pos1, k) < i <= pos1[k] implies replaces(
        tm,
        (#[trigger] d1[k]).value,
        (#[trigger] w1[i]).1,
    ) by {
        if k < kept {
            assert(d1[k] == d0[k]);
            assert(pos1[k] == pos0[k]);
            assert(lower(pos1, k) == lower(pos0, k));
            assert(0 <= pos0[k] < w0.len());
            assert(w1[i] == w0[i]);
            assert(replaces(tm, d0[k].value, w0[i].1));
        } else if i < w0.len() {
            assert(lower(pos1, kept) == lower(pos0, kept));
            let cov = lemma_cover_from(pos0, w0.len() as int, i, kept);
            assert(replaces(tm, d0[cov].value, w0[i].1));
            assert(replaces(tm, c.value, d0[cov].value));
            assert(w1[i] == w0[i]);
        }
    }
}

/// Appending a candidate with the right span keeps the spans right.
proof fn lemma_push_spans(
    w0: Seq<Entry>,
    d0: Seq<Candidate>,
    pos0: Seq<int>,
    kept: int,
    c: Candidate,
)
    requires
        spans_match(d0, pos0),
        pos0.len() == d0.len(),
        0 <= kept <= d0.len(),
        c.span == w0.len() - lower(pos0, kept),
    ensures
        spans_match(d0.take(kept).push(c), pos0.take(kept).push(w0.len() as int)),
{
    let d1 = d0.take(kept).push(c);
    let pos1 = pos0.take(kept).push(w0.len() as int);
    assert forall|k: int| 0 <= k < d1.len() implies (#[trigger] d1[k]).span == pos1[k] - lower(
        pos1,
        k,
    ) by {
        if k < kept {
            assert(d1[k] == d0[k]);
            assert(lower(pos1, k) == lower(pos0, k));
            assert(d0[k].span == pos0[k] - lower(pos0, k));
        } else {
            assert(lower(pos1, kept) == lower(pos0, kept));
        }
    }
}

/// Appending a candidate after the candidates it does not replace keeps the
/// deque in step with the window.
proof fn lemma_push_keeps_skeleton(
    w0: Seq<Entry>,
    d0: Seq<Candidate>,
    pos0: Seq<int>,
    tm: bool,
    kept: int,
    c: Candidate,
)
    requires
        skeleton(w0, d0, pos0, tm),
        0 <= kept <= d0.len(),
        forall|k: int| kept <= k < d0.len() ==> replaces(tm, c.value, (#[trigger] d0[k]).value),
        kept > 0 ==> !replaces(tm, c.value, d0[kept - 1].value),
    ensures
        skeleton(
            w0.push((c.timestamp, c.value)),
            d0.take(kept).push(c),
            pos0.take(kept).push(w0.len() as int),
            tm,
        ),
        spans_match(d0, pos0) && c.span == w0.len() - lower(pos0, kept) ==> spans_match(
            d0.take(kept).push(c),
            pos0.take(kept).push(w0.len() as int),
        ),
{
    lemma_push_placed(w0, d0, pos0, kept, c);
    lemma_push_ordered(d0, tm, kept, c);
    lemma_push_dominates(w0, d0, pos0, tm, kept, c);
    if spans_match(d0, pos0) && c.span == w0.len() - lower(pos0, kept) {
        lemma_push_spans(w0, d0, pos0, kept, c);
    }
}

/// The positions from index `from` on, each moved down by `by`.
spec fn shifted(pos: Seq<int>, from: int, by: int) -> Seq<int> {
    Seq::new((pos.len() - from) as nat, |k: int| pos[k + from] - by)
}

/// Moving every position down by one keeps the candidates in place in the
/// window without its first entry, as long as the front candidate is not that
/// entry.
proof fn lemma_shift_placed(w0: Seq<Entry>, d0: Seq<Candidate>, d1: Seq<Candidate>, pos0: Seq<int>)
    requires
        placed(w0, d0, pos0),
        d0.len() > 0,
        pos0[0] >= 1,
        d1.len() == d0.len(),
        forall|k: int|
            0 <= k < d0.len() ==> (#[trigger] d1[k]).timestamp == d0[k].timestamp && d1[k].value
                == d0[k].value,
    ensures
        placed(w0.drop_first(), d1, shifted(pos0, 0, 1)),
{
    let pos1 = shifted(pos0, 0, 1);
    let w1 = w0.drop_first();
    assert forall|k: int| 0 <= k < d1.len() implies 0 <= #[trigger] pos1[k] < w1.len()
        && w1[pos1[k]] == (d1[k].timestamp, d1[k].value) by {
        if k > 0 {
            assert(pos0[0] < pos0[k]);
        }
        assert(0 <= pos0[k] < w0.len());
        assert(w1[pos1[k]] == w0[pos0[k]]);
    }
    assert forall|j: int, k: int| 0 <= j < k < d1.len() implies #[trigger] pos1[j]
        < #[trigger] pos1[k] by {
        assert(pos0[j] < pos0[k]);
    }
    assert(pos1[d1.len() - 1] == pos0[d0.len() - 1] - 1);
}

/// Moving every position down by one keeps every entry of the window without
/// its first entry covered.
proof fn lemma_shift_dominates(
    w0: Seq<Entry>,
    d0: Seq<Candidate>,
    d1: Seq<Candidate>,
    pos0: Seq<int>,
    tm: bool,
)
    requires
        dominates(w0, d0, pos0, tm),
        pos0.len() == d0.len(),
        d1.len() == d0.len(),
        forall|k: int| 0 <= k < d0.len() ==> (#[trigger] d1[k]).value == d0[k].value,
        forall|k: int| 0 <= k < d0.len() ==> 0 <= #[trigger] pos0[k] < w0.len(),
    ensures
        dominates(w0.drop_first(), d1, shifted(pos0, 0, 1), tm),
{
    let pos1 = shifted(pos0, 0, 1);
    let w1 = w0.drop_first();
    assert forall|k: int, i: int|
        0 <= k < d1.len() && lower(pos1, k) < i <= pos1[k] implies replaces(
        tm,
        (#[trigger] d1[k]).value,
        (#[trigger] w1[i]).1,
    ) by {
        assert(0 <= pos0[k] < w0.len());
        if k > 0 {
            assert(0 <= pos0[k - 1] < w0.len());
            assert(pos1[k - 1] == pos0[k - 1] - 1);
        }
        assert(lower(pos0, k) < i + 1 <= pos0[k]);
        assert(w1[i] == w0[i + 1]);
        assert(replaces(tm, d0[k].value, w0[i + 1].1));
    }
}

/// Candidates with the values of ordered candidates are ordered.
proof fn lemma_same_values_ordered(d0: Seq<Candidate>, d1: Seq<Candidate>, tm: bool)
    requires
        ordered(d0, tm),
        d1.len() == d0.len(),
        forall|k: int| 0 <= k < d0.len() ==> (#[trigger] d1[k]).value == d0[k].value,
    ensures
        ordered(d1, tm),
{
    assert forall|j: int, k: int| 0 <= j < k < d1.len() implies !replaces(
        tm,
        (#[trigger] d1[k]).value,
        (#[trigger] d1[j]).value,
    ) by {
        assert(!replaces(tm, d0[k].value, d0[j].value));
    }
}

/// Moving every position down by one and shortening the span of the front
/// candidate by one keeps the spans right.
proof fn lemma_shift_spans(d0: Seq<Candidate>, d1: Seq<Candidate>, pos0: Seq<int>)
    requires
        spans_match(d0, pos0),
        pos0.len() == d0.len(),
        d1.len() == d0.len(),
        d0.len() > 0,
        d1[0].span == d0[0].span - 1,
        forall|k: int| 1 <= k < d0.len() ==> (#[trigger] d1[k]).span == d0[k].span,
    ensures
        spans_match(d1, shifted(pos0, 0, 1)),
{
    let pos1 = shifted(pos0, 0, 1);
    assert forall|k: int| 0 <= k < d1.len() implies (#[trigger] d1[k]).span == pos1[k] - lower(
        pos1,
        k,
    ) by {
        assert(d0[k].span == pos0[k] - lower(pos0, k));
        if k > 0 {
            assert(pos1[k - 1] == pos0[k - 1] - 1);
        }
    }
}

/// Dropping the oldest entry of the window when the front candidate stands
/// for more than itself: the front candidate stays with a shorter span.
proof fn lemma_evict_covered(w0: Seq<Entry>, d0: Seq<Candidate>, pos0: Seq<int>, tm: bool)
    requires
        skeleton(w0, d0, pos0, tm),
        spans_match(d0, pos0),
        d0.len() > 0,
        d0[0].span > 1,
    ensures
        ({
            let c = Candidate {
                timestamp: d0[0].timestamp,
                value: d0[0].value,
                span: (d0[0].span - 1) as usize,
            };
            &&& skeleton(w0.drop_first(), d0.update(0, c), shifted(pos0, 0, 1), tm)
            &&& spans_match(d0.update(0, c), shifted(pos0, 0, 1))
        }),
{
    let c = Candidate {
        timestamp: d0[0].timestamp,
        value: d0[0].value,
        span: (d0[0].span - 1) as usize,
    };
    let d1 = d0.update(0, c);
    assert(d0[0].span == pos0[0] - lower(pos0, 0));
    lemma_shift_placed(w0, d0, d1, pos0);
    lemma_shift_dominates(w0, d0, d1, pos0, tm);
    lemma_same_values_ordered(d0, d1, tm);
    lemma_shift_spans(d0, d1, pos0);
}

/// Dropping the first `popped` candidates and moving the positions of the
/// others down by `p` keeps them in place in the window without its first
/// `p` entries, when exactly the dropped candidates lie among those entries.
proof fn lemma_skip_placed(w0: Seq<Entry>, d0: Seq<Candidate>, pos0: Seq<int>, popped: int, p: int)
    requires
        placed(w0, d0, pos0),
        0 <= popped <= d0.len(),
        0 <= p <= w0.len(),
        forall|k: int| 0 <= k < d0.len() ==> (k < popped <==> #[trigger] pos0[k] < p),
    ensures
        placed(w0.skip(p), d0.skip(popped), shifted(pos0, popped, p)),
{
    let w1 = w0.skip(p);
    let d1 = d0.skip(popped);
    let pos1 = shifted(pos0, popped, p);
    if d1.len() == 0 {
        if d0.len() > 0 {
            assert(pos0[d0.len() - 1] < p);
        }
    } else {
        assert(pos0[d0.len() - 1] >= p);
        assert(pos1[d1.len() - 1] == pos0[d0.len() - 1] - p);
    }
    assert forall|k: int| 0 <= k < d1.len() implies 0 <= #[trigger] pos1[k] < w1.len()
        && w1[pos1[k]] == (d1[k].timestamp, d1[k].value) by {
        assert(d1[k] == d0[k + popped]);
        assert(pos0[k + popped] >= p);
        assert(0 <= pos0[k + popped] < w0.len());
        assert(w1[pos1[k]] == w0[pos0[k + popped]]);
    }
    assert forall|j: int, k: int| 0 <= j < k < d1.len() implies #[trigger] pos1[j]
        < #[trigger] pos1[k] by {
        assert(pos0[j + popped] < pos0[k + popped]);
    }
}

/// Dropping the first `popped` candidates keeps the others ordered.
proof fn lemma_skip_ordered(d0: Seq<Candidate>, tm: bool, popped: int)
    requires
        ordered(d0, tm),
        0 <= popped <= d0.len(),
    ensures
        ordered(d0.skip(popped), tm),
{
    let d1 = d0.skip(popped);
    assert forall|j: int, k: int| 0 <= j < k < d1.len() implies !replaces(
        tm,
        (#[trigger] d1[k]).value,
        (#[trigger] d1[j]).value,
    ) by {
        assert(d1[k] == d0[k + popped]);
        assert(d1[j] == d0[j + popped]);
        assert(!replaces(tm, d0[k + popped].value, d0[j + popped].value));
    }
}

/// Dropping the first `popped` candidates and the first `p` entries keeps
/// every entry that is left covered, when exactly the dropped candidates lie
/// among the dropped entries.
proof fn lemma_skip_dominates(
    w0: Seq<Entry>,
    d0: Seq<Candidate>,
    pos0: Seq<int>,
    tm: bool,
    popped: int,
    p: int,
)
    requires
        dominates(w0, d0, pos0, tm),
        pos0.len() == d0.len(),
        0 <= popped <= d0.len(),
        0 <= p <= w0.len(),
        forall|k: int| 0 <= k < d0.len() ==> 0 <= #[trigger] pos0[k] < w0.len(),
        forall|k: int| 0 <= k < d0.len() ==> (k < popped <==> #[trigger] pos0[k] < p),
    ensures
        dominates(w0.skip(p), d0.skip(popped), shifted(pos0, popped, p), tm),
{
    let w1 = w0.skip(p);
    let d1 = d0.skip(popped);
    let pos1 = shifted(pos0, popped, p);
    assert forall|k: int, i: int|
        0 <= k < d1.len() && lower(pos1, k) < i <= pos1[k] implies replaces(
        tm,
        (#[trigger] d1[k]).value,
        (#[trigger] w1[i]).1,
    ) by {
        assert(d1[k] == d0[k + popped]);
        assert(0 <= pos0[k + popped] < w0.len());
        if k > 0 {
            assert(lower(pos0, k + popped) == pos0[k + popped - 1]);
            assert(pos1[k - 1] == pos0[k + popped - 1] - p);
        } else if popped > 0 {
            assert(pos0[popped - 1] < p);
        }
        assert(lower(pos0, k + popped) < i + p <= pos0[k + popped]);
        assert(w1[i] == w0[i + p]);
        assert(replaces(tm, d0[k + popped].value, w0[i + p].1));
    }
}

/// Dropping the first candidate and moving the positions of the others down
/// by one keeps the spans right, when the first candidate was the first
/// entry.
proof fn lemma_drop_spans(d0: Seq<Candidate>, pos0: Seq<int>)
    requires
        spans_match(d0, pos0),
        pos0.len() == d0.len(),
        d0.len() > 0,
        pos0[0] == 0,
    ensures
        spans_match(d0.drop_first(), shifted(pos0, 1, 1)),
{
    let d1 = d0.drop_first();
    let pos1 = shifted(pos0, 1, 1);
    assert forall|k: int| 0 <= k < d1.len() implies (#[trigger] d1[k]).span == pos1[k] - lower(
        pos1,
        k,
    ) by {
        assert(d1[k] == d0[k + 1]);
        assert(d0[k + 1].span == pos0[k + 1] - lower(pos0, k + 1));
        if k > 0 {
            assert(pos1[k - 1] == pos0[k] - 1);
        }
    }
}

/// Dropping the oldest entry of the window when it is the front candidate
/// itself: the front candidate leaves.
proof fn lemma_evict_front(w0: Seq<Entry>, d0: Seq<Candidate>, pos0: Seq<int>, tm: bool)
    requires
        skeleton(w0, d0, pos0, tm),
        spans_match(d0, pos0),
        d0.len() > 0,
        d0[0].span <= 1,
    ensures
        skeleton(w0.drop_first(), d0.drop_first(), shifted(pos0, 1, 1), tm),
        spans_match(d0.drop_first(), shifted(pos0, 1, 1)),
{
    assert(d0[0].span == pos0[0] - lower(pos0, 0));
    assert(pos0[0] == 0);
    assert forall|k: int| 0 <= k < d0.len() implies (k < 1 <==> #[trigger] pos0[k] < 1) by {
        if k > 0 {
            assert(pos0[0] < pos0[k]);
        }
    }
    lemma_skip_placed(w0, d0, pos0, 1, 1);
    lemma_skip_ordered(d0, tm, 1);
    lemma_skip_dominates(w0, d0, pos0, tm, 1, 1);
    lemma_drop_spans(d0, pos0);
    assert(w0.skip(1) =~= w0.drop_first());
    assert(d0.skip(1) =~= d0.drop_first());
}

/// Dropping the first `p` entries of the window together with the `popped`
/// candidates that lie among them.
proof fn lemma_prune_keeps_skeleton(
    w0: Seq<Entry>,
    d0: Seq<Candidate>,
    pos0: Seq<int>,
    tm: bool,
    popped: int,
    p: int,
)
    requires
        skeleton(w0, d0, pos0, tm),
        timestamps_sorted(w0),
        0 <= popped <= d0.len(),
        0 <= p <= w0.len(),
        forall|k: int| 0 <= k < d0.len() ==> (k < popped <==> #[trigger] pos0[k] < p),
    ensures
        skeleton(w0.skip(p), d0.skip(popped), shifted(pos0, popped, p), tm),
        timestamps_sorted(w0.skip(p)),
{
    lemma_skip_placed(w0, d0, pos0, popped, p);
    lemma_skip_ordered(d0, tm, popped);
    lemma_skip_dominates(w0, d0, pos0, tm, popped, p);
    let w1 = w0.skip(p);
    assert forall|i: int, j: int| 0 <= i <= j < w1.len() implies w1[i].0 <= w1[j].0 by {
        assert(w0[i + p].0 <= w0[j + p].0);
    }
}

/// The number of positions below `i`.
spec fn rank(pos: Seq<int>, i: int) -> nat
    decreases pos.len(),
{
    if pos.len() == 0 {
        0
    } else {
        rank(pos.drop_last(), i) + (if pos.last() < i {
            1nat
        } else {
            0nat
        })
    }
}

/// `i` is one of the positions.
spec fn is_position(pos: Seq<int>, i: int) -> bool {
    exists|k: int| 0 <= k < pos.len() && #[trigger] pos[k] == i
}

/// Going one index up, the rank grows by one exactly at a position.
proof fn lemma_rank_step(pos: Seq<int>, i: int)
    requires
        forall|a: int, b: int| 0 <= a < b < pos.len() ==> #[trigger] pos[a] < #[trigger] pos[b],
    ensures
        rank(pos, i + 1) == rank(pos, i) + (if is_position(pos, i) {
            1nat
        } else {
            0nat
        }),
        rank(pos, i) <= pos.len(),
    decreases pos.len(),
{
    if pos.len() > 0 {
        let before = pos.drop_last();
        assert forall|a: int, b: int| 0 <= a < b < before.len() implies #[trigger] before[a]
            < #[trigger] before[b] by {
            assert(pos[a] < pos[b]);
        }
        lemma_rank_step(before, i);
        if is_position(before, i) {
            let k = choose|k: int| 0 <= k < before.len() && #[trigger] before[k] == i;
            assert(pos[k] == i);
            assert(pos[k] < pos[pos.len() - 1]);
        } else if pos.last() == i {
            assert(pos[pos.len() - 1] == i);
        } else if is_position(pos, i) {
            let k = choose|k: int| 0 <= k < pos.len() && #[trigger] pos[k] == i;
            assert(before[k] == i);
        }
    }
}

/// No position lies below zero, and all of them lie below `n`.
proof fn lemma_rank_ends(pos: Seq<int>, n: int)
    requires
        forall|k: int| 0 <= k < pos.len() ==> 0 <= #[trigger] pos[k] < n,
    ensures
        rank(pos, 0) == 0,
        rank(pos, n) == pos.len(),
    decreases pos.len(),
{
    if pos.len() > 0 {
        let before = pos.drop_last();
        assert forall|k: int| 0 <= k < before.len() implies 0 <= #[trigger] before[k] < n by {
            assert(before[k] == pos[k]);
        }
        lemma_rank_ends(before, n);
        assert(pos.last() == pos[pos.len() - 1]);
    }
}

/// The positions of the deque are exactly the candidates of the window.
#[verifier::rlimit(50)]
proof fn lemma_candidate_iff_position(
    w: Seq<Entry>,
    d: Seq<Candidate>,
    pos: Seq<int>,
    tm: bool,
    i: int,
)
    requires
        skeleton(w, d, pos, tm),
        0 <= i < w.len(),
    ensures
        is_candidate(w, tm, i) <==> is_position(pos, i),
{
    let c = lemma_cover_from(pos, w.len() as int, i, 0);
    if i == pos[c] {
        assert forall|j: int| i < j < w.len() implies !replaces(tm, (#[trigger] w[j]).1, w[i].1) by {
            let cj = lemma_cover_from(pos, w.len() as int, j, c);
            assert(cj > c) by {
                if cj == c {
                    assert(j <= pos[c]);
                }
            }
            assert(replaces(tm, d[cj].value, w[j].1));
            assert(!replaces(tm, d[cj].value, d[c].value));
            assert(w[pos[c]] == (d[c].timestamp, d[c].value));
        }
    } else {
        assert(w[pos[c]] == (d[c].timestamp, d[c].value));
        assert(replaces(tm, d[c].value, w[i].1));
        assert(replaces(tm, w[pos[c]].1, w[i].1));
        assert(!is_position(pos, i)) by {
            if is_position(pos, i) {
                let k = choose|k: int| 0 <= k < pos.len() && #[trigger] pos[k] == i;
                if k < c {
                    if c > 0 {
                        if k < c - 1 {
                            assert(pos[k] < pos[c - 1]);
                        }
                    }
                } else if k > c {
                    assert(pos[c] < pos[k]);
                }
            }
        }
    }
}

/// From index `i` on, the window has as many candidates as the deque has
/// positions at or after `i`.
proof fn lemma_count_candidates(
    w: Seq<Entry>,
    d: Seq<Candidate>,
    pos: Seq<int>,
    tm: bool,
    i: int,
)
    requires
        skeleton(w, d, pos, tm),
        0 <= i <= w.len(),
    ensures
        candidates_from(w, tm, i) + rank(pos, i) == d.len(),
    decreases w.len() - i,
{
    if i == w.len() {
        lemma_rank_ends(pos, w.len() as int);
    } else {
        lemma_count_candidates(w, d, pos, tm, i + 1);
        lemma_rank_step(pos, i);
        lemma_candidate_iff_position(w, d, pos, tm, i);
    }
}

/// Tracks the maximum or minimum value in a sliding window.
#[derive(Clone)]
pub struct ExtremumTracker {
    /// Candidates in monotonic order: for a maximum the values decrease from
    /// the front, for a minimum they increase.
    deque: VecDeque<Candidate>,
    /// The number of retained entries of a count window.
    len: usize,
    /// The window to track.
    window: Window,
    /// Whether to track the maximum (true) or the minimum (false).
    track_max: bool,
    /// The entries that the window retains.
    retained: Ghost<Seq<Entry>>,
    /// The position of each candidate among the retained entries.
    positions: Ghost<Seq<int>>,
}

impl View for ExtremumTracker {
    type V = Seq<Entry>;

    closed spec fn view(&self) -> Seq<Entry> {
        self.retained@
    }
}

impl ExtremumTracker {
    /// The window this tracker was made with.
    pub closed spec fn spec_window(&self) -> Window {
        self.window
    }

    /// Whether this tracker follows the maximum.
    pub closed spec fn spec_track_max(&self) -> bool {
        self.track_max
    }

    /// The deque holds exactly the retained entries that no later entry
    /// replaces. A count window holds at most its count of entries; the
    /// timestamps of a duration window never decrease.
    pub closed spec fn wf(&self) -> bool {
        &&& skeleton(self.retained@, self.deque@, self.positions@, self.track_max)
        &&& match self.window {
            Window::Bars(n) => {
                &&& self.retained@.len() <= n
                &&& self.len == self.retained@.len()
                &&& spans_match(self.deque@, self.positions@)
            },
            _ => timestamps_sorted(self.retained@),
        }
    }

    /// Whether an entry stamped `timestamp` may be pushed: a duration window
    /// takes its entries in timestamp order.
    pub open spec fn spec_accepts(&self, timestamp: i64) -> bool {
        match self.spec_window() {
            Window::Bars(_) => true,
            _ => self@.len() == 0 || self@.last().0 <= timestamp,
        }
    }

    /// What a well-formed tracker guarantees of its retained entries.
    pub proof fn lemma_bounded(&self)
        requires
            self.wf(),
        ensures
            match self.spec_window() {
                Window::Bars(n) => self@.len() <= n,
                _ => timestamps_sorted(self@),
            },
    {
    }

    /// Create a new extremum tracker. The window is given as it is, or with
    /// a rounding flag, which the tracker sets aside.
    pub fn new<W: Into<WindowConfig>>(window: W, track_max: bool) -> (r: Self)
        ensures
            r.wf(),
            r@ == Seq::<Entry>::empty(),
            W::obeys_into_spec() ==> r.spec_window() == W::into_spec(window).window,
            r.spec_track_max() == track_max,
    {
        let config: WindowConfig = window.into();
        ExtremumTracker {
            deque: VecDeque::new(),
            len: 0,
            window: config.window,
            track_max,
            retained: Ghost(Seq::empty()),
            positions: Ghost(Seq::empty()),
        }
    }

    /// The window this tracker was made with.
    pub fn window(&self) -> (r: Window)
        ensures
            r == self.spec_window(),
    {
        self.window
    }

    /// Whether this tracker follows the maximum.
    pub fn tracks_max(&self) -> (r: bool)
        ensures
            r == self.spec_track_max(),
    {
        self.track_max
    }

    /// Create a maximum tracker.
    pub fn new_max<W: Into<WindowConfig>>(window: W) -> (r: Self)
        ensures
            r.wf(),
            r@ == Seq::<Entry>::empty(),
            W::obeys_into_spec() ==> r.spec_window() == W::into_spec(window).window,
            r.spec_track_max(),
    {
        Self::new(window, true)
    }

    /// Create a minimum tracker.
    pub fn new_min<W: Into<WindowConfig>>(window: W) -> (r: Self)
        ensures
            r.wf(),
            r@ == Seq::<Entry>::empty(),
            W::obeys_into_spec() ==> r.spec_window() == W::into_spec(window).window,
            !r.spec_track_max(),
    {
        Self::new(window, false)
    }

    /// Whether `new_value` replaces `old_value` as a candidate.
    fn should_replace(&self, new_value: i64, old_value: i64) -> (r: bool)
        ensures
            r == replaces(self.track_max, new_value, old_value),
    {
        if self.track_max {
            new_value >= old_value
        } else {
            new_value <= old_value
        }
    }

    /// Whether an entry stamped `timestamp` may be pushed.
    pub fn accepts(&self, timestamp: i64) -> (r: bool)
        requires
            self.wf(),
        ensures
            r == self.spec_accepts(timestamp),
    {
        match self.window {
            Window::Bars(_) => true,
            _ => {
                let n: usize = self.deque.len();
                if n == 0 {
                    true
                } else {
                    let back: Candidate = self.deque[n - 1];
                    back.timestamp <= timestamp
                }
            },
        }
    }

    /// The number of candidates that the deque holds: the entries of the
    /// window that no later entry replaces.
    pub fn candidates(&self) -> (r: usize)
        requires
            self.wf(),
        ensures
            r == candidate_count(self@, self.spec_track_max()),
    {
        proof {
            lemma_count_candidates(
                self.retained@,
                self.deque@,
                self.positions@,
                self.track_max,
                0,
            );
            lemma_rank_ends(self.positions@, self.retained@.len() as int);
        }
        self.deque.len()
    }

    /// Drops the oldest retained entry of a full count window.
    #[verifier::rlimit(50)]
    fn evict_oldest(&mut self)
        requires
            old(self).wf(),
            old(self).window is Bars,
            old(self).retained@.len() > 0,
        ensures
            final(self).wf(),
            final(self).retained@ == old(self).retained@.drop_first(),
            final(self).window == old(self).window,
            final(self).track_max == old(self).track_max,
    {
        let ghost w0 = self.retained@;
        let ghost d0 = self.deque@;
        let ghost pos0 = self.positions@;
        let front: Candidate = self.deque[0];
        let _ = self.deque.pop_front();
        if front.span > 1 {
            let shorter = Candidate {
                timestamp: front.timestamp,
                value: front.value,
                span: front.span - 1,
            };
            self.deque.push_front(shorter);
            proof {
                assert(self.deque@ =~= d0.update(0, shorter));
                lemma_evict_covered(w0, d0, pos0, self.track_max);
                self.retained = Ghost(w0.drop_first());
                self.positions = Ghost(shifted(pos0, 0, 1));
            }
        } else {
            proof {
                assert(self.deque@ =~= d0.drop_first());
                lemma_evict_front(w0, d0, pos0, self.track_max);
                self.retained = Ghost(w0.drop_first());
                self.positions = Ghost(shifted(pos0, 1, 1));
            }
        }
        self.len = self.len - 1;
    }

    /// Adds an entry. Candidates that the new value replaces leave from the
    /// back; a full count window first drops its oldest entry.
    #[verifier::rlimit(50)]
    pub fn push(&mut self, timestamp: i64, value: i64)
        requires
            old(self).wf(),
            old(self).spec_accepts(timestamp),
        ensures
            final(self).wf(),
            final(self)@ == spec_push(old(self)@, old(self).spec_window(), (timestamp, value)),
            final(self).spec_window() == old(self).spec_window(),
            final(self).spec_track_max() == old(self).spec_track_max(),
    {
        let bars: bool = match self.window {
            Window::Bars(n) => {
                if n == 0 {
                    assert(spec_push(self.retained@, self.window, (timestamp, value))
                        =~= self.retained@);
                    return ;
                }
                if self.len == n {
                    self.evict_oldest();
                    assert(old(self).retained@.drop_first().push((timestamp, value)) =~= keep_last(
                        old(self).retained@.push((timestamp, value)),
                        n as int,
                    ));
                }
                true
            },
            _ => false,
        };
        let ghost w0 = self.retained@;
        let ghost d0 = self.deque@;
        let ghost pos0 = self.positions@;
        let mut span: usize = 1;
        loop
            invariant
                self.deque@.len() <= d0.len(),
                self.deque@ == d0.take(self.deque@.len() as int),
                self.retained@ == w0,
                self.positions@ == pos0,
                self.window == old(self).window,
                self.track_max == old(self).track_max,
                self.len == w0.len() || !bars,
                bars == (self.window is Bars),
                skeleton(w0, d0, pos0, self.track_max),
                bars ==> spans_match(d0, pos0),
                bars ==> span == w0.len() - lower(pos0, self.deque@.len() as int),
                match self.window {
                    Window::Bars(n) => w0.len() < n,
                    _ => true,
                },
                forall|k: int|
                    self.deque@.len() <= k < d0.len() ==> replaces(
                        self.track_max,
                        value,
                        (#[trigger] d0[k]).value,
                    ),
            ensures
                self.deque@.len() > 0 ==> !replaces(
                    self.track_max,
                    value,
                    d0[self.deque@.len() - 1].value,
                ),
            decreases self.deque@.len(),
        {
            let n: usize = self.deque.len();
            if n == 0 {
                break ;
            }
            let back: Candidate = self.deque[n - 1];
            if !self.should_replace(value, back.value) {
                break ;
            }
            let _ = self.deque.pop_back();
            if bars {
                assert(d0[n - 1].span == pos0[n - 1] - lower(pos0, n - 1));
                span = span + back.span;
            }
            assert(self.deque@ =~= d0.take(n - 1));
        }
        let ghost kept = self.deque@.len() as int;
        self.deque.push_back(Candidate { timestamp, value, span });
        if bars {
            self.len = self.len + 1;
        }
        proof {
            let c = Candidate { timestamp, value, span };
            lemma_push_keeps_skeleton(w0, d0, pos0, self.track_max, kept, c);
            let w1 = w0.push((timestamp, value));
            assert(self.deque@ =~= d0.take(kept).push(c));
            if !bars {
                assert forall|i: int, j: int| 0 <= i <= j < w1.len() implies w1[i].0 <= w1[j].0 by {
                    if j < w0.len() {
                        assert(w0[i].0 <= w0[j].0);
                    } else if i < w0.len() {
                        assert(w0[i].0 <= w0[w0.len() - 1].0);
                    }
                }
            }
            self.retained = Ghost(w1);
            self.positions = Ghost(pos0.take(kept).push(w0.len() as int));
        }
    }

    /// The extremum of the retained entries; `None` while the window is
    /// empty.
    pub fn get(&self) -> (r: Option<i64>)
        requires
            self.wf(),
        ensures
            r == extremum(self@, self.spec_track_max()),
    {
        if self.deque.len() == 0 {
            None
        } else {
            let front: Candidate = self.deque[0];
            proof {
                let w = self.retained@;
                let d = self.deque@;
                let pos = self.positions@;
                assert(w[pos[0]].1 == front.value);
                assert forall|i: int| 0 <= i < w.len() implies replaces(
                    self.track_max,
                    front.value,
                    (#[trigger] w[i]).1,
                ) by {
                    let c = lemma_cover_from(pos, w.len() as int, i, 0);
                    assert(replaces(self.track_max, d[c].value, w[i].1));
                    if c > 0 {
                        assert(!replaces(self.track_max, d[c].value, d[0].value));
                    }
                }
                lemma_extremum_unique(w, self.track_max, front.value);
            }
            Some(front.value)
        }
    }

    /// Whether the window may be pruned at `current_timestamp`: the reference
    /// of a duration window is never earlier than its latest entry.
    pub open spec fn spec_prunable(&self, current_timestamp: i64) -> bool {
        self.spec_accepts(current_timestamp)
    }

    /// Drops the entries of a duration window that lie before
    /// `current_timestamp - duration`. A count window is left as it is.
    #[verifier::rlimit(50)]
    pub fn prune(&mut self, current_timestamp: i64)
        requires
            old(self).wf(),
            old(self).spec_prunable(current_timestamp),
        ensures
            final(self).wf(),
            final(self)@ == spec_prune(old(self)@, old(self).spec_window(), current_timestamp),
            final(self).spec_window() == old(self).spec_window(),
            final(self).spec_track_max() == old(self).spec_track_max(),
    {
        if let Window::Bars(_) = self.window {
            assert(self.retained@.skip(0) =~= self.retained@);
            return ;
        }
        let ghost w0 = self.retained@;
        let ghost d0 = self.deque@;
        let ghost pos0 = self.positions@;
        let ghost mut popped: int = 0;
        loop
            invariant
                0 <= popped <= d0.len(),
                self.deque@ == d0.skip(popped),
                self.retained@ == w0,
                self.positions@ == pos0,
                self.window == old(self).window,
                self.track_max == old(self).track_max,
                self.len == old(self).len,
                forall|k: int|
                    0 <= k < popped ==> !spec_in_window(
                        self.window,
                        current_timestamp,
                        (#[trigger] d0[k]).timestamp,
                    ),
            ensures
                popped < d0.len() ==> spec_in_window(
                    self.window,
                    current_timestamp,
                    d0[popped].timestamp,
                ),
            decreases d0.len() - popped,
        {
            if self.deque.len() == 0 {
                break ;
            }
            let front: Candidate = self.deque[0];
            assert(front == d0[popped]);
            if in_window(&self.window, current_timestamp, front.timestamp) {
                break ;
            }
            let _ = self.deque.pop_front();
            proof {
                assert(self.deque@ =~= d0.skip(popped + 1));
                popped = popped + 1;
            }
        }
        proof {
            let window = self.window;
            assert forall|i: int| 0 <= i < w0.len() implies w0[i].0 <= current_timestamp by {
                assert(w0[i].0 <= w0[w0.len() - 1].0);
            }
            lemma_prune_retains_window(w0, window, current_timestamp);
            let p = expired_prefix(w0, window, current_timestamp) as int;
            assert forall|k: int| 0 <= k < d0.len() implies (k < popped <==> #[trigger] pos0[k]
                < p) by {
                assert(w0[pos0[k]].0 == d0[k].timestamp);
                if k < popped {
                    assert(!spec_in_window(window, current_timestamp, d0[k].timestamp));
                } else {
                    if k > popped {
                        assert(pos0[popped] < pos0[k]);
                    }
                    assert(spec_in_window(window, current_timestamp, w0[pos0[popped]].0));
                    assert(w0[pos0[popped]].0 <= w0[pos0[k]].0);
                }
            }
            lemma_prune_keeps_skeleton(w0, d0, pos0, self.track_max, popped, p);
            self.retained = Ghost(w0.skip(p));
            self.positions = Ghost(shifted(pos0, popped, p));
        }
    }

    /// Forgets every entry.
    pub fn clear(&mut self)
        ensures
            final(self).wf(),
            final(self)@ == Seq::<Entry>::empty(),
            final(self).spec_window() == old(self).spec_window(),
            final(self).spec_track_max() == old(self).spec_track_max(),
    {
        self.deque.clear();
        self.len = 0;
        self.retained = Ghost(Seq::empty());
        self.positions = Ghost(Seq::empty());
    }
}

} // verus!
