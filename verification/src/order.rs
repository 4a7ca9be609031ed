//! Stable ordering of records by a 64-bit timestamp key.
use vstd::prelude::*;
use vstd::relations::*;
use vstd::multiset::Multiset;
use crate::lexical::lemma_sorted_unique;

verus! {

broadcast use vstd::seq::group_seq_axioms;

/// Position `i` comes no later than `j` in the stable timestamp order:
/// earlier timestamp first, ties kept in input order.
pub open spec fn ts_key_le(ts: Seq<i64>, i: int, j: int) -> bool {
    ts[i] < ts[j] || (ts[i] == ts[j] && i <= j)
}

pub open spec fn ts_key_leq(ts: Seq<i64>) -> spec_fn(int, int) -> bool {
    |i: int, j: int| ts_key_le(ts, i, j)
}

/// The positions `0..ts.len()` arranged in stable timestamp order.
pub open spec fn stable_order(ts: Seq<i64>) -> Seq<int> {
    Seq::new(ts.len(), |i: int| i).sort_by(ts_key_leq(ts))
}

pub proof fn lemma_ts_key_total(ts: Seq<i64>)
    ensures
        total_ordering(ts_key_leq(ts)),
{
}

/// The stable order is a permutation of the positions, sorted by
/// timestamp, with ties in input order.
pub proof fn lemma_stable_order_props(ts: Seq<i64>)
    ensures
        stable_order(ts).len() == ts.len(),
        forall|k: int|
            0 <= k < ts.len() ==> 0 <= #[trigger] stable_order(ts)[k] < ts.len(),
        forall|a: int, b: int|
            0 <= a < b < ts.len() ==> ts_key_le(ts, #[trigger] stable_order(ts)[a], #[trigger] stable_order(ts)[b]),
        forall|a: int, b: int|
            0 <= a < b < ts.len() ==> ts[#[trigger] stable_order(ts)[a]] <= ts[#[trigger] stable_order(ts)[b]],
        stable_order(ts).to_multiset() == Seq::new(ts.len(), |i: int| i).to_multiset(),
{
    broadcast use vstd::seq_lib::group_to_multiset_ensures;

    let ids = Seq::new(ts.len(), |i: int| i);
    lemma_ts_key_total(ts);
    ids.lemma_sort_by_ensures(ts_key_leq(ts));
    let s = stable_order(ts);
    assert(s.to_multiset() == ids.to_multiset());
    assert(s.len() == ids.len()) by {
        assert(s.to_multiset().len() == s.len());
        assert(ids.to_multiset().len() == ids.len());
    }
    assert(sorted_by(s, ts_key_leq(ts)));
    assert forall|k: int| 0 <= k < ts.len() implies 0 <= #[trigger] s[k] < ts.len() by {
        assert(s.contains(s[k]));
        if !(0 <= s[k] < ts.len()) {
            assert(!ids.contains(s[k]));
        }
    }
    assert forall|a: int, b: int| 0 <= a < b < ts.len() implies ts_key_le(
        ts,
        #[trigger] s[a],
        #[trigger] s[b],
    ) by {
        assert(ts_key_leq(ts)(s[a], s[b]));
    }
    assert forall|a: int, b: int| 0 <= a < b < ts.len() implies ts[#[trigger] s[a]] <= ts[#[trigger] s[b]] by {
        assert(ts_key_leq(ts)(s[a], s[b]));
    }
}

/// Positions of `ts` in stable ascending timestamp order.
pub fn stable_sort_indices(ts: &Vec<i64>) -> (r: Vec<usize>)
    ensures
        r@.map_values(|k: usize| k as int) == stable_order(ts@),
{
    broadcast use vstd::seq_lib::group_to_multiset_ensures;
    broadcast use vstd::multiset::group_multiset_axioms;

    let ghost leq = ts_key_leq(ts@);
    let mut out: Vec<usize> = Vec::new();
    let n = ts.len();
    let mut i: usize = 0;
    proof {
        lemma_ts_key_total(ts@);
        assert(out@.map_values(|k: usize| k as int) =~= Seq::new(0, |j: int| j));
    }
    while i < n
        invariant
            n == ts.len(),
            i <= n,
            total_ordering(leq),
            leq == ts_key_leq(ts@),
            forall|k: int| 0 <= k < out.len() ==> #[trigger] out@[k] < i,
            out@.map_values(|k: usize| k as int).to_multiset() == Seq::new(
                i as nat,
                |j: int| j,
            ).to_multiset(),
            sorted_by(out@.map_values(|k: usize| k as int), leq),
        decreases n - i,
    {
        let ghost old_out = out@.map_values(|k: usize| k as int);
        let ghost old_raw = out@;
        let key = ts[i];
        let mut pos: usize = 0;
        while pos < out.len() && ts[out[pos]] <= key
            invariant
                pos <= out.len(),
                n == ts.len(),
                forall|k: int| 0 <= k < out.len() ==> #[trigger] out@[k] < n,
                forall|k: int| 0 <= k < pos ==> ts@[#[trigger] out@[k] as int] <= key,
            decreases out.len() - pos,
        {
            pos = pos + 1;
        }
        out.insert(pos, i);
        proof {
            let s = out@.map_values(|k: usize| k as int);
            assert(out@ =~= old_raw.insert(pos as int, i));
            assert(s =~= old_out.insert(pos as int, i as int));
            crate::lexical::lemma_insert_multiset(old_out, pos as int, i as int);
            assert(Seq::new((i + 1) as nat, |j: int| j) =~= Seq::new(i as nat, |j: int| j).push(
                i as int,
            ));
            vstd::seq_lib::to_multiset_build(Seq::new(i as nat, |j: int| j), i as int);
            old_out.insert_ensures(pos as int, i as int);
            assert forall|a: int, b: int| 0 <= a < b < s.len() implies #[trigger] leq(
                s[a],
                s[b],
            ) by {
                if b < pos {
                    assert(leq(old_out[a], old_out[b]));
                } else if b == pos {
                    assert(ts@[old_raw[a] as int] <= key);
                    assert(old_raw[a] < i);
                } else if a == pos {
                    assert(ts@[old_raw[pos as int] as int] > key);
                    if b - 1 > pos {
                        assert(leq(old_out[pos as int], old_out[b - 1]));
                        assert(leq(i as int, old_out[pos as int]));
                    }
                } else if a < pos {
                    assert(leq(old_out[a], old_out[b - 1]));
                } else {
                    assert(leq(old_out[a - 1], old_out[b - 1]));
                }
            }
            assert forall|k: int| 0 <= k < out.len() implies #[trigger] out@[k] < i + 1 by {
                if k < pos {
                    assert(out@[k] == old_raw[k]);
                } else if k > pos {
                    assert(out@[k] == old_raw[k - 1]);
                }
            }
        }
        i = i + 1;
    }
    proof {
        let ids = Seq::new(n as nat, |j: int| j);
        ids.lemma_sort_by_ensures(leq);
        assert(ids =~= Seq::new(ts@.len(), |j: int| j));
        lemma_sorted_unique(out@.map_values(|k: usize| k as int), stable_order(ts@), leq);
    }
    out
}

} // verus!
