//! Temporal windowing of timestamp-sorted steps: grouping into candidate
//! clusters, gap detection and the longest within-gap run.
use vstd::prelude::*;
use crate::arith::{sat_i64, sat_sub, trunc_div};

verus! {

/// The step at sorted position `k` follows position `k - 1` within `gap`
/// nanoseconds (saturating difference, as the correlator computes it).
pub open spec fn within_gap(sts: Seq<i64>, k: int, gap: i64) -> bool {
    sat_i64(sts[k] - sts[k - 1]) <= gap
}

/// Candidate groups of sorted positions, as half-open ranges `(start, end)`.
/// A step joins the current group when it follows the previous step within
/// `gap` and the group holds fewer than `cap` steps; otherwise it opens a new
/// group.
pub open spec fn groups(sts: Seq<i64>, gap: i64, cap: nat) -> Seq<(int, int)>
    decreases sts.len(),
{
    if sts.len() == 0 {
        seq![]
    } else {
        let prev = groups(sts.drop_last(), gap, cap);
        let k = sts.len() - 1;
        if prev.len() > 0 && within_gap(sts, k, gap) && prev.last().1 - prev.last().0 < cap {
            prev.update(prev.len() - 1, (prev.last().0, k + 1))
        } else {
            prev.push((k, k + 1))
        }
    }
}

/// Length of the run of within-gap links that ends at position `k`,
/// counting from position `lo`.
pub open spec fn run_len(sts: Seq<i64>, lo: int, k: int, gap: i64) -> nat
    decreases k - lo,
{
    if k <= lo {
        1
    } else if within_gap(sts, k, gap) {
        run_len(sts, lo, k - 1, gap) + 1
    } else {
        1
    }
}

/// Longest run of within-gap links among positions `lo..=k`.
pub open spec fn depth_upto(sts: Seq<i64>, lo: int, k: int, gap: i64) -> nat
    decreases k - lo,
{
    if k <= lo {
        1
    } else {
        let d = depth_upto(sts, lo, k - 1, gap);
        let r = run_len(sts, lo, k, gap);
        if r > d {
            r
        } else {
            d
        }
    }
}

/// Some link among positions `lo..hi` is wider than `half`.
pub open spec fn gaps_above(sts: Seq<i64>, lo: int, hi: int, half: int) -> bool {
    exists|k: int| lo < k < hi && sat_i64(#[trigger] sts[k] - sts[k - 1]) > half
}

/// The candidate groups partition the sorted positions: they are non-empty,
/// contiguous, in order, cover every position exactly once, hold at most
/// `max(cap, 1)` steps each, and every link inside a group is within `gap`.
pub proof fn lemma_groups_partition(sts: Seq<i64>, gap: i64, cap: nat)
    ensures
        (groups(sts, gap, cap).len() == 0) == (sts.len() == 0),
        sts.len() > 0 ==> groups(sts, gap, cap)[0].0 == 0,
        sts.len() > 0 ==> groups(sts, gap, cap).last().1 == sts.len(),
        forall|i: int|
            0 <= i < groups(sts, gap, cap).len() ==> 0 <= #[trigger] groups(sts, gap, cap)[i].0
                < groups(sts, gap, cap)[i].1 <= sts.len(),
        forall|i: int|
            0 <= i < groups(sts, gap, cap).len() ==> #[trigger] groups(sts, gap, cap)[i].1
                - groups(sts, gap, cap)[i].0 <= if cap == 0 {
                1
            } else {
                cap as int
            },
        forall|i: int|
            0 <= i < groups(sts, gap, cap).len() - 1 ==> #[trigger] groups(sts, gap, cap)[i].1
                == groups(sts, gap, cap)[i + 1].0,
        forall|i: int, k: int|
            0 <= i < groups(sts, gap, cap).len() && #[trigger] groups(sts, gap, cap)[i].0 < k
                < groups(sts, gap, cap)[i].1 ==> #[trigger] within_gap(sts, k, gap),
    decreases sts.len(),
{
    if sts.len() > 0 {
        let p = sts.drop_last();
        lemma_groups_partition(p, gap, cap);
        let g = groups(sts, gap, cap);
        let prev = groups(p, gap, cap);
        let k = sts.len() - 1;
        assert forall|j: int| 0 < j < k implies within_gap(p, j, gap) == within_gap(sts, j, gap) by {
            assert(p[j] == sts[j] && p[j - 1] == sts[j - 1]);
        }
        if prev.len() > 0 && within_gap(sts, k, gap) && prev.last().1 - prev.last().0 < cap {
            assert forall|i: int, m: int|
                0 <= i < g.len() && #[trigger] g[i].0 < m < g[i].1 implies #[trigger] within_gap(
                sts,
                m,
                gap,
            ) by {
                if i < g.len() - 1 {
                    assert(g[i] == prev[i]);
                    assert(within_gap(p, m, gap));
                    assert(p[m] == sts[m] && p[m - 1] == sts[m - 1]);
                } else if m < k {
                    assert(g[i].0 == prev[i].0);
                    assert(prev[i].1 == k);
                    assert(prev[i].0 < m < prev[i].1);
                    assert(within_gap(p, m, gap));
                    assert(p[m] == sts[m] && p[m - 1] == sts[m - 1]);
                }
            }
        } else {
            assert forall|i: int, m: int|
                0 <= i < g.len() && #[trigger] g[i].0 < m < g[i].1 implies #[trigger] within_gap(
                sts,
                m,
                gap,
            ) by {
                if i < g.len() - 1 {
                    assert(g[i] == prev[i]);
                    assert(within_gap(p, m, gap));
                    assert(p[m] == sts[m] && p[m - 1] == sts[m - 1]);
                }
            }
        }
    }
}

/// Within a group whose links are all within `gap`, the run ending at `k`
/// spans the whole range from `lo`.
pub proof fn lemma_run_full(sts: Seq<i64>, lo: int, k: int, gap: i64)
    requires
        lo <= k,
        forall|m: int| lo < m <= k ==> #[trigger] within_gap(sts, m, gap),
    ensures
        run_len(sts, lo, k, gap) == k - lo + 1,
        depth_upto(sts, lo, k, gap) == k - lo + 1,
    decreases k - lo,
{
    if k > lo {
        assert(within_gap(sts, k, gap));
        lemma_run_full(sts, lo, k - 1, gap);
    }
}

/// Groups of sorted positions, computed left to right.
pub fn group_ranges(sts: &Vec<i64>, gap: i64, cap: usize) -> (r: Vec<(usize, usize)>)
    ensures
        r@.map_values(|p: (usize, usize)| (p.0 as int, p.1 as int)) == groups(sts@, gap, cap as nat),
{
    let mut out: Vec<(usize, usize)> = Vec::new();
    let n = sts.len();
    let mut k: usize = 0;
    assert(sts@.take(0) =~= Seq::<i64>::empty());
    while k < n
        invariant
            n == sts.len(),
            k <= n,
            out@.map_values(|p: (usize, usize)| (p.0 as int, p.1 as int)) == groups(
                sts@.take(k as int),
                gap,
                cap as nat,
            ),
        decreases n - k,
    {
        let ghost pre = sts@.take(k as int);
        let ghost cur = sts@.take(k + 1);
        let ghost before = out@;
        let ghost bview = before.map_values(|p: (usize, usize)| (p.0 as int, p.1 as int));
        proof {
            lemma_groups_partition(pre, gap, cap as nat);
            assert(cur.drop_last() =~= pre);
            assert(cur[k as int] == sts@[k as int]);
            if k > 0 {
                assert(cur[k - 1] == sts@[k - 1]);
                let lst = (before.len() - 1) as int;
                assert(bview[lst] == (before[lst].0 as int, before[lst].1 as int));
            }
        }
        let mut merge = false;
        if out.len() > 0 {
            let last = out.len() - 1;
            let s = out[last].0;
            let e = out[last].1;
            if sat_sub(sts[k], sts[k - 1]) <= gap && e - s < cap {
                merge = true;
            }
        }
        if merge {
            let last = out.len() - 1;
            let s = out[last].0;
            out.set(last, (s, k + 1));
            proof {
                assert(out@.map_values(|p: (usize, usize)| (p.0 as int, p.1 as int)) =~= bview.update(
                    last as int,
                    (s as int, k + 1),
                ));
            }
        } else {
            out.push((k, k + 1));
            proof {
                assert(out@.map_values(|p: (usize, usize)| (p.0 as int, p.1 as int)) =~= bview.push(
                    (k as int, k + 1),
                ));
            }
        }
        k = k + 1;
    }
    assert(sts@.take(n as int) =~= sts@);
    out
}

/// Longest within-gap run among positions `lo..hi`.
pub fn compute_dag_depth(sts: &Vec<i64>, lo: usize, hi: usize, gap: i64) -> (d: usize)
    requires
        lo < hi <= sts.len(),
    ensures
        d == depth_upto(sts@, lo as int, hi - 1, gap),
{
    let mut depth: usize = 1;
    let mut run: usize = 1;
    let mut k: usize = lo + 1;
    while k < hi
        invariant
            lo < k <= hi <= sts.len(),
            run == run_len(sts@, lo as int, k - 1, gap),
            depth == depth_upto(sts@, lo as int, k - 1, gap),
            1 <= run <= k - lo,
        decreases hi - k,
    {
        if sat_sub(sts[k], sts[k - 1]) <= gap {
            run = run + 1;
            if run > depth {
                depth = run;
            }
        } else {
            run = 1;
        }
        k = k + 1;
    }
    depth
}

/// Whether some link among positions `lo..hi` is wider than `half`.
pub fn any_gap_above(sts: &Vec<i64>, lo: usize, hi: usize, half: i64) -> (b: bool)
    requires
        lo < hi <= sts.len(),
    ensures
        b == gaps_above(sts@, lo as int, hi as int, half as int),
{
    let mut k: usize = lo + 1;
    while k < hi
        invariant
            lo < k,
            lo <= hi <= sts.len(),
            forall|m: int| lo < m < k && m < hi ==> sat_i64(#[trigger] sts@[m] - sts@[m - 1]) <= half,
        decreases hi - k,
    {
        if sat_sub(sts[k], sts[k - 1]) > half {
            return true;
        }
        k = k + 1;
    }
    false
}

} // verus!
