//! The bounded price history: appending a point and evicting, from the
//! front, every point that has fallen out of the retention window.

use vstd::prelude::*;

use crate::model::HISTORY_WINDOW_SECS;
use crate::model::points_wf;
use crate::model::sub_sat;
use crate::types::PricePoint;

verus! {

/// Drop points from the front while they are older than `cutoff`, stopping
/// at the first point inside the window.
pub open spec fn prune_front(s: Seq<PricePoint>, cutoff: u64) -> Seq<PricePoint>
    decreases s.len(),
{
    if s.len() == 0 {
        s
    } else if s[0].timestamp < cutoff {
        prune_front(s.drop_first(), cutoff)
    } else {
        s
    }
}

/// On an ascending sequence, pruning keeps a suffix whose points all lie at
/// or after `cutoff`; a last point inside the window is never lost.
pub proof fn lemma_prune_front_wf(s: Seq<PricePoint>, cutoff: u64)
    requires
        forall|i: int, j: int| 0 <= i <= j < s.len() ==> #[trigger] s[i].timestamp
            <= #[trigger] s[j].timestamp,
    ensures
        prune_front(s, cutoff).len() <= s.len(),
        forall|i: int| 0 <= i < prune_front(s, cutoff).len() ==> #[trigger] prune_front(
            s,
            cutoff,
        )[i] == s[s.len() - prune_front(s, cutoff).len() + i],
        forall|i: int| 0 <= i < prune_front(s, cutoff).len() ==> #[trigger] prune_front(
            s,
            cutoff,
        )[i].timestamp >= cutoff,
        s.len() > 0 && s.last().timestamp >= cutoff ==> prune_front(s, cutoff).len() > 0,
    decreases s.len(),
{
    if s.len() == 0 {
    } else if s[0].timestamp < cutoff {
        let d = s.drop_first();
        assert(forall|i: int, j: int|
            0 <= i <= j < d.len() ==> #[trigger] d[i].timestamp <= #[trigger] d[j].timestamp);
        lemma_prune_front_wf(d, cutoff);
        assert(forall|i: int| 0 <= i < d.len() ==> #[trigger] d[i] == s[i + 1]);
    } else {
        assert(forall|i: int| 0 <= i < s.len() ==> #[trigger] s[i].timestamp >= s[0].timestamp);
    }
}

/// Pruning an ascending sequence is the same as skipping its first `j`
/// points, where `j` marks the first point inside the window.
pub proof fn lemma_prune_front_skip(s: Seq<PricePoint>, cutoff: u64, j: int)
    requires
        0 <= j <= s.len(),
        forall|i: int| 0 <= i < j ==> #[trigger] s[i].timestamp < cutoff,
        j < s.len() ==> s[j].timestamp >= cutoff,
    ensures
        prune_front(s, cutoff) == s.skip(j),
    decreases j,
{
    if j == 0 {
        assert(s.skip(0) =~= s);
    } else {
        assert(s[0].timestamp < cutoff);
        let d = s.drop_first();
        assert(forall|i: int| 0 <= i < j - 1 ==> #[trigger] d[i].timestamp < cutoff);
        assert(j - 1 < d.len() ==> d[j - 1].timestamp >= cutoff);
        lemma_prune_front_skip(d, cutoff, j - 1);
        assert(d.skip(j - 1) =~= s.skip(j));
    }
}

/// Append `point` to a pair's history and evict what has left the window.
pub fn append_pruned(old_pts: &Vec<PricePoint>, point: PricePoint, cutoff: u64) -> (r: Vec<
    PricePoint,
>)
    requires
        point.timestamp >= cutoff,
    ensures
        r@ == prune_front(old_pts@.push(point), cutoff),
{
    let n = old_pts.len();
    let mut j: usize = 0;
    while j < n && old_pts[j].timestamp < cutoff
        invariant
            j <= n,
            n == old_pts@.len(),
            forall|i: int| 0 <= i < j ==> #[trigger] old_pts@[i].timestamp < cutoff,
        decreases n - j,
    {
        j = j + 1;
    }
    let mut r: Vec<PricePoint> = Vec::new();
    let mut i: usize = j;
    while i < n
        invariant
            j <= i <= n,
            n == old_pts@.len(),
            r@ == old_pts@.subrange(j as int, i as int),
        decreases n - i,
    {
        r.push(old_pts[i]);
        proof {
            assert(r@ =~= old_pts@.subrange(j as int, i + 1));
        }
        i = i + 1;
    }
    r.push(point);
    proof {
        let s = old_pts@.push(point);
        assert(forall|i: int| 0 <= i < j ==> #[trigger] s[i].timestamp < cutoff);
        assert((j as int) < s.len() ==> s[j as int].timestamp >= cutoff);
        lemma_prune_front_skip(s, cutoff, j as int);
        assert(r@ =~= s.skip(j as int));
    }
    r
}

/// Appending a fresh point to a well-formed history and pruning yields a
/// well-formed history that ends at the new point — so no retained point is
/// older than the window counted from the newest timestamp.
pub proof fn lemma_append_keeps_window(s: Seq<PricePoint>, point: PricePoint)
    requires
        points_wf(s),
        point.price > 0,
        s.len() > 0 ==> s.last().timestamp <= point.timestamp,
    ensures
        points_wf(prune_front(s.push(point), sub_sat(point.timestamp, HISTORY_WINDOW_SECS))),
        prune_front(s.push(point), sub_sat(point.timestamp, HISTORY_WINDOW_SECS)).len() > 0,
        prune_front(s.push(point), sub_sat(point.timestamp, HISTORY_WINDOW_SECS)).last() == point,
        forall|i: int|
            0 <= i < prune_front(
                s.push(point),
                sub_sat(point.timestamp, HISTORY_WINDOW_SECS),
            ).len() ==> #[trigger] prune_front(
                s.push(point),
                sub_sat(point.timestamp, HISTORY_WINDOW_SECS),
            )[i].timestamp >= sub_sat(point.timestamp, HISTORY_WINDOW_SECS),
{
    let cutoff = sub_sat(point.timestamp, HISTORY_WINDOW_SECS);
    let t = s.push(point);
    assert(forall|i: int, j: int|
        0 <= i <= j < t.len() ==> #[trigger] t[i].timestamp <= #[trigger] t[j].timestamp);
    lemma_prune_front_wf(t, cutoff);
    let r = prune_front(t, cutoff);
    assert(t.last() == point);
    assert(r.len() > 0);
    assert(r[r.len() - 1] == t[t.len() - 1]);
    assert(forall|i: int| 0 <= i < r.len() ==> #[trigger] r[i] == t[t.len() - r.len() + i]);
    assert(forall|i: int| 0 <= i < r.len() ==> #[trigger] r[i].price > 0);
    assert(forall|i: int, j: int|
        0 <= i <= j < r.len() ==> #[trigger] r[i].timestamp <= #[trigger] r[j].timestamp);
    assert(r.last() == point);
}

} // verus!
