//! A correlation pass does not depend on the order of its inputs: steps
//! with distinct timestamps, and dispatch records, may come in any order.
use vstd::prelude::*;
use vstd::relations::sorted_by;
use vstd::multiset::Multiset;
use crate::order::{stable_order, lemma_stable_order_props};
use super::{
    AtuinStep, DispatchRecord, CascadeCorrelatorConfig, ClusterView, step_times, sorted_times,
    group_sessions, in_dispatch_window, window_dispatch_labels, dedup, group_pane_labels,
    cluster_of, kept_clusters, correlation, candidate_groups, max_gap_ns,
};
use super::cluster_id::lemma_cluster_id_label_order_invariant;
use super::window::lemma_groups_partition;

verus! {

broadcast use vstd::seq_lib::group_to_multiset_ensures;

/// Picking the elements of `s` through a permutation `p` of its positions
/// keeps the same elements.
pub proof fn lemma_index_perm_multiset<T>(s: Seq<T>, p: Seq<int>)
    requires
        p.to_multiset() == Seq::new(s.len(), |i: int| i).to_multiset(),
    ensures
        p.map_values(|k: int| s[k]).to_multiset() == s.to_multiset(),
    decreases s.len(),
{
    let n = s.len();
    let ids = Seq::new(n, |i: int| i);
    assert(p.len() == n) by {
        assert(p.to_multiset().len() == p.len());
        assert(ids.to_multiset().len() == ids.len());
    }
    if n == 0 {
        assert(p.map_values(|k: int| s[k]) =~= Seq::<T>::empty());
        assert(s =~= Seq::<T>::empty());
    } else {
        let ids1 = Seq::new((n - 1) as nat, |i: int| i);
        assert(ids =~= ids1.push(n - 1));
        assert(ids.contains(n - 1)) by {
            assert(ids[n - 1] == n - 1);
        }
        assert(p.to_multiset().count(n - 1) > 0);
        assert(p.contains(n - 1));
        let k = choose|k: int| 0 <= k < p.len() && p[k] == n - 1;
        let p1 = p.remove(k);
        assert(p1.to_multiset() =~= p.to_multiset().remove(n - 1));
        assert(ids.to_multiset() =~= ids1.to_multiset().insert(n - 1));
        assert(p1.to_multiset() =~= ids1.to_multiset());
        let s1 = s.drop_last();
        lemma_index_perm_multiset(s1, p1);
        assert forall|j: int| 0 <= j < p1.len() implies 0 <= #[trigger] p1[j] < n - 1 by {
            assert(p1.contains(p1[j]));
            assert(p1.to_multiset().count(p1[j]) > 0);
            assert(ids1.to_multiset().count(p1[j]) > 0);
            assert(ids1.contains(p1[j]));
        }
        let m = p.map_values(|q: int| s[q]);
        let m1 = p1.map_values(|q: int| s1[q]);
        assert(m =~= m1.insert(k, s[n - 1]));
        assert(s =~= s1.push(s[n - 1]));
        assert(m.to_multiset() =~= m1.to_multiset().insert(s[n - 1]));
    }
}

/// Two sequences sorted by `leq`, with the same elements, on which `leq`
/// is antisymmetric, are equal.
pub proof fn lemma_sorted_unique_on<T>(s1: Seq<T>, s2: Seq<T>, leq: spec_fn(T, T) -> bool)
    requires
        sorted_by(s1, leq),
        sorted_by(s2, leq),
        s1.to_multiset() == s2.to_multiset(),
        forall|x: T, y: T|
            s1.contains(x) && s1.contains(y) && #[trigger] leq(x, y) && #[trigger] leq(y, x) ==> x
                == y,
    ensures
        s1 == s2,
    decreases s1.len(),
{
    assert(s1.len() == s1.to_multiset().len());
    assert(s2.len() == s2.to_multiset().len());
    if s1.len() == 0 {
        assert(s1 =~= s2);
    } else {
        let x = s1[0];
        let y = s2[0];
        assert(s1.to_multiset().count(y) > 0);
        assert(s2.to_multiset().count(x) > 0);
        assert(s1.contains(y));
        assert(s2.contains(x));
        assert(s1.contains(x)) by {
            assert(s1[0] == x);
        }
        if x != y {
            let i = choose|i: int| 0 <= i < s1.len() && s1[i] == y;
            let j = choose|j: int| 0 <= j < s2.len() && s2[j] == x;
            assert(i > 0);
            assert(j > 0);
            assert(leq(s1[0], s1[i]));
            assert(leq(s2[0], s2[j]));
        }
        assert(x == y);
        let t1 = s1.remove(0);
        let t2 = s2.remove(0);
        assert(t1.to_multiset() =~= s1.to_multiset().remove(x));
        assert(t2.to_multiset() =~= s2.to_multiset().remove(y));
        assert(sorted_by(t1, leq)) by {
            assert forall|a: int, b: int| 0 <= a < b < t1.len() implies #[trigger] leq(
                t1[a],
                t1[b],
            ) by {
                assert(t1[a] == s1[a + 1]);
                assert(t1[b] == s1[b + 1]);
            }
        }
        assert(sorted_by(t2, leq)) by {
            assert forall|a: int, b: int| 0 <= a < b < t2.len() implies #[trigger] leq(
                t2[a],
                t2[b],
            ) by {
                assert(t2[a] == s2[a + 1]);
                assert(t2[b] == s2[b + 1]);
            }
        }
        assert forall|u: T, v: T|
            t1.contains(u) && t1.contains(v) && #[trigger] leq(u, v) && #[trigger] leq(v, u) implies u
                == v by {
            let a = choose|a: int| 0 <= a < t1.len() && t1[a] == u;
            let b = choose|b: int| 0 <= b < t1.len() && t1[b] == v;
            assert(s1[a + 1] == u);
            assert(s1[b + 1] == v);
            assert(s1.contains(u));
            assert(s1.contains(v));
        }
        lemma_sorted_unique_on(t1, t2, leq);
        assert(s1 =~= seq![x] + t1);
        assert(s2 =~= seq![y] + t2);
    }
}

/// The steps in stable timestamp order.
pub open spec fn sorted_steps(steps: Seq<AtuinStep>) -> Seq<AtuinStep> {
    stable_order(step_times(steps)).map_values(|k: int| steps[k])
}

/// No two steps share a timestamp.
pub open spec fn distinct_times(steps: Seq<AtuinStep>) -> bool {
    forall|i: int, j: int| 0 <= i < j < steps.len() ==> #[trigger] steps[i].ts_ns != #[trigger] steps[j].ts_ns
}

/// Steps ordered by timestamp alone.
pub open spec fn ts_leq() -> spec_fn(AtuinStep, AtuinStep) -> bool {
    |a: AtuinStep, b: AtuinStep| a.ts_ns <= b.ts_ns
}

/// The sorted steps are the steps, rearranged, in timestamp order.
proof fn lemma_sorted_steps_props(steps: Seq<AtuinStep>)
    ensures
        sorted_steps(steps).len() == steps.len(),
        sorted_steps(steps).to_multiset() == steps.to_multiset(),
        sorted_by(sorted_steps(steps), ts_leq()),
        sorted_times(steps) == sorted_steps(steps).map_values(|x: AtuinStep| x.ts_ns),
{
    let ts = step_times(steps);
    lemma_stable_order_props(ts);
    let so = stable_order(ts);
    lemma_index_perm_multiset(steps, so);
    let ss = sorted_steps(steps);
    assert forall|a: int, b: int| 0 <= a < b < ss.len() implies #[trigger] ts_leq()(ss[a], ss[b]) by {
        assert(ts[so[a]] <= ts[so[b]]);
    }
    assert(sorted_times(steps) =~= ss.map_values(|x: AtuinStep| x.ts_ns));
}

/// With distinct timestamps, every rearrangement of the steps sorts to the
/// same sequence.
proof fn lemma_sorted_steps_permutation(s1: Seq<AtuinStep>, s2: Seq<AtuinStep>)
    requires
        s1.to_multiset() == s2.to_multiset(),
        distinct_times(s1),
    ensures
        sorted_steps(s1) == sorted_steps(s2),
{
    lemma_sorted_steps_props(s1);
    lemma_sorted_steps_props(s2);
    let a = sorted_steps(s1);
    assert forall|x: AtuinStep, y: AtuinStep|
        a.contains(x) && a.contains(y) && #[trigger] ts_leq()(x, y) && #[trigger] ts_leq()(y, x) implies x
            == y by {
        assert(a.to_multiset().count(x) > 0);
        assert(a.to_multiset().count(y) > 0);
        assert(s1.contains(x));
        assert(s1.contains(y));
        let i = choose|i: int| 0 <= i < s1.len() && s1[i] == x;
        let j = choose|j: int| 0 <= j < s1.len() && s1[j] == y;
        if i < j {
            assert(s1[i].ts_ns != s1[j].ts_ns);
        } else if j < i {
            assert(s1[j].ts_ns != s1[i].ts_ns);
        }
    }
    lemma_sorted_unique_on(sorted_steps(s1), sorted_steps(s2), ts_leq());
}

/// Runs of the sorted steps read the same from any two inputs that sort
/// alike.
proof fn lemma_sorted_views_agree(s1: Seq<AtuinStep>, s2: Seq<AtuinStep>, g: (int, int))
    requires
        sorted_steps(s1) == sorted_steps(s2),
        0 <= g.0 <= g.1 <= s1.len(),
    ensures
        sorted_times(s1) == sorted_times(s2),
        group_sessions(s1, g) == group_sessions(s2, g),
{
    lemma_sorted_steps_props(s1);
    lemma_sorted_steps_props(s2);
    let t1 = step_times(s1);
    let t2 = step_times(s2);
    lemma_stable_order_props(t1);
    lemma_stable_order_props(t2);
    assert forall|j: int| 0 <= j < g.1 - g.0 implies #[trigger] group_sessions(s1, g)[j]
        == group_sessions(s2, g)[j] by {
        assert(sorted_steps(s1)[g.0 + j] == s1[stable_order(t1)[g.0 + j]]);
        assert(sorted_steps(s2)[g.0 + j] == s2[stable_order(t2)[g.0 + j]]);
    }
    assert(group_sessions(s1, g) =~= group_sessions(s2, g));
}

/// The label a dispatch record adds to a window's labels: its pane label
/// when it falls inside the window, nothing otherwise.
pub open spec fn window_label(x: DispatchRecord, first: i64, last: i64) -> Multiset<Seq<char>> {
    if in_dispatch_window(x.ts_ns, first, last) {
        Multiset::singleton(x.pane_label@)
    } else {
        Multiset::empty()
    }
}

proof fn lemma_window_labels_last(ds: Seq<DispatchRecord>, first: i64, last: i64)
    requires
        ds.len() > 0,
    ensures
        window_dispatch_labels(ds, first, last).to_multiset() == window_dispatch_labels(
            ds.drop_last(),
            first,
            last,
        ).to_multiset().add(window_label(ds.last(), first, last)),
{
    let p = window_dispatch_labels(ds.drop_last(), first, last);
    if in_dispatch_window(ds.last().ts_ns, first, last) {
        assert(p.push(ds.last().pane_label@).to_multiset() =~= p.to_multiset().insert(
            ds.last().pane_label@,
        ));
        assert(p.to_multiset().insert(ds.last().pane_label@) =~= p.to_multiset().add(
            window_label(ds.last(), first, last),
        ));
    } else {
        assert(p.to_multiset() =~= p.to_multiset().add(window_label(ds.last(), first, last)));
    }
}

/// Removing one record removes its label, if it had one.
proof fn lemma_window_labels_remove(ds: Seq<DispatchRecord>, k: int, first: i64, last: i64)
    requires
        0 <= k < ds.len(),
    ensures
        window_dispatch_labels(ds, first, last).to_multiset() == window_dispatch_labels(
            ds.remove(k),
            first,
            last,
        ).to_multiset().add(window_label(ds[k], first, last)),
    decreases ds.len(),
{
    lemma_window_labels_last(ds, first, last);
    if k == ds.len() - 1 {
        assert(ds.remove(k) =~= ds.drop_last());
    } else {
        let d1 = ds.drop_last();
        let r = ds.remove(k);
        assert(r.drop_last() =~= d1.remove(k));
        assert(r.last() == ds.last());
        lemma_window_labels_remove(d1, k, first, last);
        lemma_window_labels_last(r, first, last);
        assert(d1[k] == ds[k]);
        let a = window_dispatch_labels(d1.remove(k), first, last).to_multiset();
        assert(window_dispatch_labels(ds, first, last).to_multiset() =~= window_dispatch_labels(
            r,
            first,
            last,
        ).to_multiset().add(window_label(ds[k], first, last)));
    }
}

/// Rearranged dispatch records yield the same window labels, rearranged.
proof fn lemma_window_labels_permutation(
    d1: Seq<DispatchRecord>,
    d2: Seq<DispatchRecord>,
    first: i64,
    last: i64,
)
    requires
        d1.to_multiset() == d2.to_multiset(),
    ensures
        window_dispatch_labels(d1, first, last).to_multiset() == window_dispatch_labels(
            d2,
            first,
            last,
        ).to_multiset(),
    decreases d1.len(),
{
    assert(d1.len() == d1.to_multiset().len());
    assert(d2.len() == d2.to_multiset().len());
    if d1.len() == 0 {
        assert(d1 =~= d2);
    } else {
        let x = d1.last();
        assert(d1.contains(x)) by {
            assert(d1[d1.len() - 1] == x);
        }
        assert(d1.to_multiset().count(x) > 0);
        assert(d2.contains(x));
        let k = choose|k: int| 0 <= k < d2.len() && d2[k] == x;
        let e1 = d1.drop_last();
        let e2 = d2.remove(k);
        assert(d1 =~= e1.push(x));
        assert(e1.to_multiset() =~= d1.to_multiset().remove(x));
        assert(e2.to_multiset() =~= d2.to_multiset().remove(x));
        lemma_window_labels_permutation(e1, e2, first, last);
        lemma_window_labels_last(d1, first, last);
        lemma_window_labels_remove(d2, k, first, last);
    }
}

/// `dedup` keeps exactly the elements of its input, each once.
proof fn lemma_dedup_props(s: Seq<Seq<char>>)
    ensures
        dedup(s).no_duplicates(),
        forall|x: Seq<char>| #[trigger] dedup(s).contains(x) == s.contains(x),
    decreases s.len(),
{
    if s.len() > 0 {
        let p = s.drop_last();
        lemma_dedup_props(p);
        assert(s =~= p.push(s.last()));
        let l = s.last();
        let q = dedup(p);
        assert forall|x: Seq<char>| #[trigger] s.contains(x) == (p.contains(x) || x == l) by {
            if s.contains(x) {
                let i = choose|i: int| 0 <= i < s.len() && s[i] == x;
                if i < p.len() {
                    assert(p[i] == x);
                }
            }
            if p.contains(x) {
                let i = choose|i: int| 0 <= i < p.len() && p[i] == x;
                assert(s[i] == x);
            }
            if x == l {
                assert(s[s.len() - 1] == x);
            }
        }
        assert forall|x: Seq<char>| #[trigger] q.push(l).contains(x) == (q.contains(x) || x == l) by {
            let w = q.push(l);
            if w.contains(x) {
                let i = choose|i: int| 0 <= i < w.len() && w[i] == x;
                if i < q.len() {
                    assert(q[i] == x);
                }
            }
            if q.contains(x) {
                let i = choose|i: int| 0 <= i < q.len() && q[i] == x;
                assert(w[i] == x);
            }
            if x == l {
                assert(w[q.len() as int] == x);
            }
        }
        assert forall|x: Seq<char>| #[trigger] dedup(s).contains(x) == s.contains(x) by {
            assert(s.contains(x) == (p.contains(x) || x == l));
            if q.contains(l) {
                assert(dedup(s) == q);
            } else {
                assert(dedup(s) == q.push(l));
                assert(q.push(l).contains(x) == (q.contains(x) || x == l));
            }
        }
    }
}

/// Sequences without repeats holding the same elements hold them equally
/// often.
proof fn lemma_same_elements_same_multiset(a: Seq<Seq<char>>, b: Seq<Seq<char>>)
    requires
        a.no_duplicates(),
        b.no_duplicates(),
        forall|x: Seq<char>| a.contains(x) == b.contains(x),
    ensures
        a.to_multiset() == b.to_multiset(),
{
    a.lemma_multiset_has_no_duplicates();
    b.lemma_multiset_has_no_duplicates();
    assert forall|x: Seq<char>| a.to_multiset().count(x) == b.to_multiset().count(x) by {
        if a.contains(x) {
            assert(a.to_multiset().count(x) > 0);
            assert(b.to_multiset().count(x) > 0);
        } else {
            assert(a.to_multiset().count(x) == 0);
            assert(b.to_multiset().count(x) == 0);
        }
    }
    assert(a.to_multiset() =~= b.to_multiset());
}

/// Rearranged sequences deduplicate to rearrangements of each other.
proof fn lemma_dedup_permutation(a: Seq<Seq<char>>, b: Seq<Seq<char>>)
    requires
        a.to_multiset() == b.to_multiset(),
    ensures
        dedup(a).to_multiset() == dedup(b).to_multiset(),
{
    lemma_dedup_props(a);
    lemma_dedup_props(b);
    assert forall|x: Seq<char>| dedup(a).contains(x) == dedup(b).contains(x) by {
        assert(a.contains(x) == (a.to_multiset().count(x) > 0));
        assert(b.contains(x) == (b.to_multiset().count(x) > 0));
    }
    lemma_same_elements_same_multiset(dedup(a), dedup(b));
}

/// A group's pane labels, from inputs that sort alike and dispatch records
/// rearranged, are the same labels rearranged.
proof fn lemma_group_labels_permutation(
    s1: Seq<AtuinStep>,
    s2: Seq<AtuinStep>,
    d1: Seq<DispatchRecord>,
    d2: Seq<DispatchRecord>,
    g: (int, int),
)
    requires
        sorted_steps(s1) == sorted_steps(s2),
        d1.to_multiset() == d2.to_multiset(),
        0 <= g.0 < g.1 <= s1.len(),
    ensures
        group_pane_labels(s1, d1, g).to_multiset() == group_pane_labels(s2, d2, g).to_multiset(),
{
    lemma_sorted_views_agree(s1, s2, g);
    let sts = sorted_times(s1);
    let first = sts[g.0];
    let last = sts[g.1 - 1];
    lemma_window_labels_permutation(d1, d2, first, last);
    let w1 = window_dispatch_labels(d1, first, last);
    let w2 = window_dispatch_labels(d2, first, last);
    assert(w1.len() == w1.to_multiset().len());
    assert(w2.len() == w2.to_multiset().len());
    if w1.len() > 0 {
        lemma_dedup_permutation(w1, w2);
    }
}

/// Each candidate group yields the same cluster from both inputs.
proof fn lemma_cluster_of_permutation(
    cfg: CascadeCorrelatorConfig,
    s1: Seq<AtuinStep>,
    s2: Seq<AtuinStep>,
    d1: Seq<DispatchRecord>,
    d2: Seq<DispatchRecord>,
    t: i64,
    g: (int, int),
)
    requires
        sorted_steps(s1) == sorted_steps(s2),
        d1.to_multiset() == d2.to_multiset(),
        0 <= g.0 < g.1 <= s1.len(),
    ensures
        group_pane_labels(s1, d1, g).len() == group_pane_labels(s2, d2, g).len(),
        cluster_of(cfg, s1, d1, t, g) == cluster_of(cfg, s2, d2, t, g),
{
    lemma_sorted_views_agree(s1, s2, g);
    lemma_group_labels_permutation(s1, s2, d1, d2, g);
    let l1 = group_pane_labels(s1, d1, g);
    let l2 = group_pane_labels(s2, d2, g);
    assert(l1.len() == l1.to_multiset().len());
    assert(l2.len() == l2.to_multiset().len());
    let sts = sorted_times(s1);
    lemma_cluster_id_label_order_invariant(sts[g.0], sts[g.1 - 1], l1, l2, (g.1 - g.0) as u64);
}

proof fn lemma_kept_permutation(
    cfg: CascadeCorrelatorConfig,
    s1: Seq<AtuinStep>,
    s2: Seq<AtuinStep>,
    d1: Seq<DispatchRecord>,
    d2: Seq<DispatchRecord>,
    t: i64,
    gs: Seq<(int, int)>,
)
    requires
        sorted_steps(s1) == sorted_steps(s2),
        d1.to_multiset() == d2.to_multiset(),
        forall|i: int| 0 <= i < gs.len() ==> 0 <= #[trigger] gs[i].0 < gs[i].1 <= s1.len(),
    ensures
        kept_clusters(cfg, s1, d1, t, gs) == kept_clusters(cfg, s2, d2, t, gs),
    decreases gs.len(),
{
    if gs.len() > 0 {
        let last = gs.last();
        assert(gs[gs.len() - 1] == last);
        lemma_kept_permutation(cfg, s1, s2, d1, d2, t, gs.drop_last());
        lemma_cluster_of_permutation(cfg, s1, s2, d1, d2, t, last);
    }
}

/// A correlation pass does not depend on the order of its inputs: steps
/// with pairwise distinct timestamps, given in any order, and dispatch
/// records, given in any order, yield the same clusters.
pub proof fn lemma_correlation_order_independent(
    cfg: CascadeCorrelatorConfig,
    s1: Seq<AtuinStep>,
    s2: Seq<AtuinStep>,
    d1: Seq<DispatchRecord>,
    d2: Seq<DispatchRecord>,
    t: i64,
)
    requires
        s1.to_multiset() == s2.to_multiset(),
        distinct_times(s1),
        d1.to_multiset() == d2.to_multiset(),
    ensures
        correlation(cfg, s1, d1, t) == correlation(cfg, s2, d2, t),
{
    lemma_sorted_steps_permutation(s1, s2);
    lemma_sorted_steps_props(s1);
    lemma_sorted_steps_props(s2);
    let sts = sorted_times(s1);
    assert(sts == sorted_times(s2));
    let gs = candidate_groups(cfg, s1);
    assert(gs == candidate_groups(cfg, s2));
    lemma_groups_partition(sts, max_gap_ns(cfg), cfg.max_steps_per_cluster as nat);
    lemma_kept_permutation(cfg, s1, s2, d1, d2, t, gs);
}

} // verus!
