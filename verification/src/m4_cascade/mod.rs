//! Cascade correlation: groups atuin tool-call rows into opaque
//! cascade-cluster identifiers.
//!
//! Cluster identifiers are one-way FNV-1a hashes; downstream consumers
//! treat them as opaque.
pub mod cluster_id;
pub mod error;
pub mod permutation;
pub mod window;

use vstd::prelude::*;
use crate::arith::{sat_i64, sat_add, sat_mul_small, trunc_div, half_toward_zero};
use crate::order::{stable_order, stable_sort_indices, lemma_stable_order_props};
pub use self::cluster_id::{
    assign_cluster_id,
    fnv1a_64,
    CascadeClusterId,
    cluster_id_text,
    str_views,
    lemma_cluster_id_shape,
};
pub use self::error::CascadeError;
use self::window::{
    groups,
    depth_upto,
    gaps_above,
    group_ranges,
    compute_dag_depth,
    any_gap_above,
    lemma_groups_partition,
    lemma_run_full,
};

verus! {

/// Trailing-window slack (ns) within which a `DispatchRecord` is considered
/// part of a step group's pane fan-out: 60 s of wall clock.
pub const DISPATCH_TRAILING_SLACK_NS: i64 = 60_000_000_000;

/// A single atuin tool-call row.
#[derive(Debug, Clone)]
pub struct AtuinStep {
    /// atuin row primary key (ULID).
    pub id: String,
    /// Wall-clock timestamp in nanoseconds.
    pub ts_ns: i64,
    /// Command verbatim.
    pub command: String,
    /// Working directory.
    pub cwd: String,
    /// Session identifier.
    pub session: String,
    /// Process exit code.
    pub exit: i32,
}

/// A cc-* dispatch log entry (atuin row whose command matches the cc-* prefix).
#[derive(Debug, Clone)]
pub struct DispatchRecord {
    /// Wall-clock timestamp in nanoseconds.
    pub ts_ns: i64,
    /// Fleet pane label (e.g. `ALPHA-LEFT`).
    pub pane_label: String,
    /// Binary invoked (e.g. `cc-dispatch`).
    pub binary: String,
    /// Session identifier.
    pub session: String,
}

/// A correlated multi-pane cascade event.
#[derive(Debug, Clone)]
pub struct CascadeCluster {
    /// Opaque identifier.
    pub cluster_id: CascadeClusterId,
    /// Start of the temporal window (ns since epoch).
    pub window_start_ns: i64,
    /// End of the temporal window (ns since epoch).
    pub window_end_ns: i64,
    /// Distinct pane labels participating in the cluster.
    pub pane_count: usize,
    /// Total steps recorded in the cluster.
    pub step_count: usize,
    /// `true` if some inter-step gap exceeds half of the maximum gap.
    pub has_temporal_gaps: bool,
    /// Longest run of consecutive steps whose gaps stay within the maximum gap.
    pub dag_depth: usize,
    /// Wall-clock time the cluster was emitted.
    pub observed_at_ms: i64,
}

/// The mathematical content of a [`CascadeCluster`].
pub struct ClusterView {
    pub id: Seq<char>,
    pub window_start_ns: i64,
    pub window_end_ns: i64,
    pub pane_count: nat,
    pub step_count: nat,
    pub has_temporal_gaps: bool,
    pub dag_depth: nat,
    pub observed_at_ms: i64,
}

impl View for CascadeCluster {
    type V = ClusterView;

    open spec fn view(&self) -> ClusterView {
        ClusterView {
            id: self.cluster_id.0@,
            window_start_ns: self.window_start_ns,
            window_end_ns: self.window_end_ns,
            pane_count: self.pane_count as nat,
            step_count: self.step_count as nat,
            has_temporal_gaps: self.has_temporal_gaps,
            dag_depth: self.dag_depth as nat,
            observed_at_ms: self.observed_at_ms,
        }
    }
}

/// Cascade correlator configuration.
#[derive(Debug, Clone)]
pub struct CascadeCorrelatorConfig {
    /// Maximum inter-step gap within a cluster (ms).
    pub max_gap_ms: i64,
    /// Minimum distinct panes for a cluster to emit.
    pub min_pane_count: usize,
    /// Sliding-window span (ms).
    pub window_ms: i64,
    /// Per-cluster step cap (DoS / OOM guard).
    pub max_steps_per_cluster: usize,
    /// atuin SQLite path.
    pub atuin_db_path: String,
}

impl CascadeCorrelatorConfig {
    /// The default configuration for a user whose home directory is `home`:
    /// 30 s maximum gap, at least 2 panes, a 5 min window, at most 500 steps
    /// per cluster, and atuin's history database under `home`.
    pub fn for_home(home: &str) -> (c: Self)
        ensures
            c.max_gap_ms == 30_000,
            c.min_pane_count == 2,
            c.window_ms == 300_000,
            c.max_steps_per_cluster == 500,
            c.atuin_db_path@ == home@ + "/.local/share/atuin/history.db"@,
    {
        let mut path = String::new();
        crate::text::push_str(&mut path, home);
        crate::text::push_str(&mut path, "/.local/share/atuin/history.db");
        CascadeCorrelatorConfig {
            max_gap_ms: 30_000,
            min_pane_count: 2,
            window_ms: 300_000,
            max_steps_per_cluster: 500,
            atuin_db_path: path,
        }
    }
}

/// The cascade correlator.
#[derive(Debug)]
pub struct CascadeCorrelator {
    config: CascadeCorrelatorConfig,
}

// ---------------------------------------------------------------------------
// Model of a correlation pass.
// ---------------------------------------------------------------------------

/// Timestamps of the steps, in input order.
pub open spec fn step_times(steps: Seq<AtuinStep>) -> Seq<i64> {
    steps.map_values(|s: AtuinStep| s.ts_ns)
}

/// Timestamps of the steps, in stable ascending order.
pub open spec fn sorted_times(steps: Seq<AtuinStep>) -> Seq<i64> {
    stable_order(step_times(steps)).map_values(|k: int| step_times(steps)[k])
}

/// The maximum gap in nanoseconds (`max_gap_ms * 1_000_000`, saturating).
pub open spec fn max_gap_ns(cfg: CascadeCorrelatorConfig) -> i64 {
    sat_i64(cfg.max_gap_ms * 1_000_000)
}

/// Candidate groups of sorted step positions.
pub open spec fn candidate_groups(cfg: CascadeCorrelatorConfig, steps: Seq<AtuinStep>) -> Seq<
    (int, int),
> {
    groups(sorted_times(steps), max_gap_ns(cfg), cfg.max_steps_per_cluster as nat)
}

/// A dispatch at `ts` falls between the first step and the last step plus
/// the trailing slack.
pub open spec fn in_dispatch_window(ts: i64, first: i64, last: i64) -> bool {
    first <= ts && ts <= sat_i64(last + DISPATCH_TRAILING_SLACK_NS)
}

/// Pane labels of the dispatch records inside the window, in input order.
pub open spec fn window_dispatch_labels(ds: Seq<DispatchRecord>, first: i64, last: i64) -> Seq<
    Seq<char>,
>
    decreases ds.len(),
{
    if ds.len() == 0 {
        seq![]
    } else {
        let p = window_dispatch_labels(ds.drop_last(), first, last);
        if in_dispatch_window(ds.last().ts_ns, first, last) {
            p.push(ds.last().pane_label@)
        } else {
            p
        }
    }
}

/// Sessions of the steps of a group, in sorted order.
pub open spec fn group_sessions(steps: Seq<AtuinStep>, g: (int, int)) -> Seq<Seq<char>> {
    Seq::new(
        (g.1 - g.0) as nat,
        |j: int| steps[stable_order(step_times(steps))[g.0 + j]].session@,
    )
}

/// The distinct elements of `s`, each at its first occurrence.
pub open spec fn dedup(s: Seq<Seq<char>>) -> Seq<Seq<char>>
    decreases s.len(),
{
    if s.len() == 0 {
        seq![]
    } else {
        let p = dedup(s.drop_last());
        if p.contains(s.last()) {
            p
        } else {
            p.push(s.last())
        }
    }
}

/// Distinct pane labels of a group: those of the dispatch records in its
/// window, or, when there are none, the sessions of its steps.
pub open spec fn group_pane_labels(
    steps: Seq<AtuinStep>,
    ds: Seq<DispatchRecord>,
    g: (int, int),
) -> Seq<Seq<char>> {
    let sts = sorted_times(steps);
    let dl = window_dispatch_labels(ds, sts[g.0], sts[g.1 - 1]);
    if dl.len() > 0 {
        dedup(dl)
    } else {
        dedup(group_sessions(steps, g))
    }
}

/// The cluster that a candidate group yields.
pub open spec fn cluster_of(
    cfg: CascadeCorrelatorConfig,
    steps: Seq<AtuinStep>,
    ds: Seq<DispatchRecord>,
    observed_at_ms: i64,
    g: (int, int),
) -> ClusterView {
    let sts = sorted_times(steps);
    let labels = group_pane_labels(steps, ds, g);
    let gap = max_gap_ns(cfg);
    ClusterView {
        id: cluster_id_text(sts[g.0], sts[g.1 - 1], labels, (g.1 - g.0) as u64),
        window_start_ns: sts[g.0],
        window_end_ns: sts[g.1 - 1],
        pane_count: labels.len(),
        step_count: (g.1 - g.0) as nat,
        has_temporal_gaps: gaps_above(sts, g.0, g.1, trunc_div(gap as int, 2)),
        dag_depth: depth_upto(sts, g.0, g.1 - 1, gap),
        observed_at_ms,
    }
}

/// Clusters of the groups `gs` that reach the minimum pane count, in order.
pub open spec fn kept_clusters(
    cfg: CascadeCorrelatorConfig,
    steps: Seq<AtuinStep>,
    ds: Seq<DispatchRecord>,
    observed_at_ms: i64,
    gs: Seq<(int, int)>,
) -> Seq<ClusterView>
    decreases gs.len(),
{
    if gs.len() == 0 {
        seq![]
    } else {
        let p = kept_clusters(cfg, steps, ds, observed_at_ms, gs.drop_last());
        if group_pane_labels(steps, ds, gs.last()).len() >= cfg.min_pane_count {
            p.push(cluster_of(cfg, steps, ds, observed_at_ms, gs.last()))
        } else {
            p
        }
    }
}

/// The clusters a correlation pass emits.
pub open spec fn correlation(
    cfg: CascadeCorrelatorConfig,
    steps: Seq<AtuinStep>,
    ds: Seq<DispatchRecord>,
    observed_at_ms: i64,
) -> Seq<ClusterView> {
    kept_clusters(cfg, steps, ds, observed_at_ms, candidate_groups(cfg, steps))
}

/// The character sequences of a sequence of strings.
pub open spec fn strings_view(v: Seq<String>) -> Seq<Seq<char>> {
    v.map_values(|s: String| s@)
}

/// Whether `v` holds a string equal to `x`.
fn contains_string(v: &Vec<String>, x: &String) -> (r: bool)
    ensures
        r == strings_view(v@).contains(x@),
{
    let mut j: usize = 0;
    while j < v.len()
        invariant
            j <= v.len(),
            forall|m: int| 0 <= m < j ==> v@[m]@ != x@,
        decreases v.len() - j,
    {
        if v[j] == *x {
            assert(strings_view(v@)[j as int] == x@);
            return true;
        }
        j = j + 1;
    }
    assert forall|m: int| 0 <= m < strings_view(v@).len() implies strings_view(v@)[m] != x@ by {
        assert(strings_view(v@)[m] == v@[m]@);
    }
    false
}

/// Appends `x` unless an equal string is already present.
fn push_distinct(v: &mut Vec<String>, x: &String)
    ensures
        strings_view(final(v)@) == (if strings_view(old(v)@).contains(x@) {
            strings_view(old(v)@)
        } else {
            strings_view(old(v)@).push(x@)
        }),
{
    if !contains_string(v, x) {
        let ghost before = v@;
        v.push(x.clone());
        assert(strings_view(v@) =~= strings_view(before).push(x@));
    }
}

/// Distinct pane labels of the group of sorted positions `lo..hi`.
fn collect_pane_labels(
    steps: &[AtuinStep],
    ord: &Vec<usize>,
    sts: &Vec<i64>,
    lo: usize,
    hi: usize,
    ds: &[DispatchRecord],
) -> (r: Vec<String>)
    requires
        lo < hi <= sts.len(),
        sts@ == sorted_times(steps@),
        ord.len() == sts.len(),
        ord@.map_values(|k: usize| k as int) == stable_order(step_times(steps@)),
        forall|k: int| 0 <= k < ord.len() ==> #[trigger] ord@[k] < steps.len(),
    ensures
        strings_view(r@) == group_pane_labels(steps@, ds@, (lo as int, hi as int)),
{
    let first = sts[lo];
    let last = sts[hi - 1];
    let upper = sat_add(last, DISPATCH_TRAILING_SLACK_NS);
    let mut out: Vec<String> = Vec::new();
    let mut any = false;
    let mut i: usize = 0;
    assert(ds@.take(0) =~= Seq::<DispatchRecord>::empty());
    while i < ds.len()
        invariant
            i <= ds.len(),
            upper == sat_i64(last + DISPATCH_TRAILING_SLACK_NS),
            strings_view(out@) == dedup(window_dispatch_labels(ds@.take(i as int), first, last)),
            any == (window_dispatch_labels(ds@.take(i as int), first, last).len() > 0),
        decreases ds.len() - i,
    {
        let ghost cur = ds@.take(i + 1);
        proof {
            assert(cur.drop_last() =~= ds@.take(i as int));
            assert(cur.last() == ds@[i as int]);
        }
        let ghost wl = window_dispatch_labels(ds@.take(i as int), first, last);
        let d = &ds[i];
        if d.ts_ns >= first && d.ts_ns <= upper {
            push_distinct(&mut out, &d.pane_label);
            any = true;
            proof {
                assert(window_dispatch_labels(cur, first, last) == wl.push(d.pane_label@));
                assert(wl.push(d.pane_label@).drop_last() =~= wl);
            }
        } else {
            assert(window_dispatch_labels(cur, first, last) == wl);
        }
        i = i + 1;
    }
    assert(ds@.take(ds.len() as int) =~= ds@);
    if any {
        return out;
    }
    let ghost sess = group_sessions(steps@, (lo as int, hi as int));
    assert(strings_view(out@).len() == 0);
    assert(sess.take(0) =~= Seq::<Seq<char>>::empty());
    let mut j: usize = lo;
    while j < hi
        invariant
            lo <= j <= hi <= ord.len(),
            ord.len() == sts.len(),
            sess == group_sessions(steps@, (lo as int, hi as int)),
            ord@.map_values(|k: usize| k as int) == stable_order(step_times(steps@)),
            forall|k: int| 0 <= k < ord.len() ==> #[trigger] ord@[k] < steps.len(),
            strings_view(out@) == dedup(sess.take(j - lo)),
        decreases hi - j,
    {
        let k = ord[j];
        proof {
            let t = sess.take(j - lo + 1);
            assert(t.drop_last() =~= sess.take(j - lo));
            assert(stable_order(step_times(steps@))[j as int] == k as int);
            assert(t.last() == steps@[k as int].session@);
        }
        push_distinct(&mut out, &steps[k].session);
        j = j + 1;
    }
    assert(sess.take(hi - lo) =~= sess);
    out
}

/// The positions of `steps` in stable timestamp order, and the timestamps
/// in that order.
pub fn sort_steps(steps: &[AtuinStep]) -> (r: (Vec<usize>, Vec<i64>))
    ensures
        r.0@.map_values(|k: usize| k as int) == stable_order(step_times(steps@)),
        r.1@ == sorted_times(steps@),
        r.0.len() == steps.len(),
        r.1.len() == steps.len(),
        forall|m: int| 0 <= m < r.0.len() ==> #[trigger] r.0@[m] < steps.len(),
{
    let n = steps.len();
    let mut ts: Vec<i64> = Vec::new();
    let mut i: usize = 0;
    while i < n
        invariant
            i <= n == steps.len(),
            ts@ == step_times(steps@).take(i as int),
        decreases n - i,
    {
        ts.push(steps[i].ts_ns);
        assert(ts@ =~= step_times(steps@).take(i + 1));
        i = i + 1;
    }
    assert(ts@ =~= step_times(steps@));
    let ord = stable_sort_indices(&ts);
    proof {
        lemma_stable_order_props(ts@);
        assert(ord@.len() == n);
        assert forall|k: int| 0 <= k < ord.len() implies #[trigger] ord@[k] < steps.len() by {
            assert(ord@.map_values(|k: usize| k as int)[k] == ord@[k] as int);
        }
    }
    let mut sts: Vec<i64> = Vec::new();
    let mut k: usize = 0;
    while k < n
        invariant
            k <= n == steps.len() == ord.len() == ts.len(),
            ts@ == step_times(steps@),
            ord@.map_values(|k: usize| k as int) == stable_order(step_times(steps@)),
            forall|m: int| 0 <= m < ord.len() ==> #[trigger] ord@[m] < steps.len(),
            sts@ == sorted_times(steps@).take(k as int),
        decreases n - k,
    {
        sts.push(ts[ord[k]]);
        proof {
            assert(stable_order(step_times(steps@))[k as int] == ord@[k as int] as int);
            assert(sts@ =~= sorted_times(steps@).take(k + 1));
        }
        k = k + 1;
    }
    assert(sts@ =~= sorted_times(steps@));
    (ord, sts)
}

impl CascadeCorrelator {
    /// The configuration this correlator was built with.
    pub closed spec fn cfg(&self) -> CascadeCorrelatorConfig {
        self.config
    }

    /// Construct with the given configuration.
    pub fn new(config: CascadeCorrelatorConfig) -> (c: Self)
        ensures
            c.cfg() == config,
    {
        CascadeCorrelator { config }
    }

    /// Borrow the configuration snapshot.
    pub fn config(&self) -> (r: &CascadeCorrelatorConfig)
        ensures
            *r == self.cfg(),
    {
        &self.config
    }

    /// Correlate a batch of steps and dispatch records into zero or more
    /// clusters stamped `observed_at_ms`. Steps are ordered by timestamp
    /// (stable on ties), grouped while consecutive gaps stay within the
    /// maximum gap and the group is under the step cap, and each group with
    /// enough distinct panes becomes a cluster.
    #[verifier::rlimit(40)]
    #[verifier::spinoff_prover]
    pub fn correlate_at(
        &self,
        steps: &[AtuinStep],
        dispatch_records: &[DispatchRecord],
        observed_at_ms: i64,
    ) -> (r: Vec<CascadeCluster>)
        ensures
            r@.map_values(|c: CascadeCluster| c@) == correlation(
                self.cfg(),
                steps@,
                dispatch_records@,
                observed_at_ms,
            ),
    {
        let ghost cfg = self.cfg();
        let n = steps.len();
        let gap = sat_mul_small(self.config.max_gap_ms, 1_000_000);
        let half = half_toward_zero(gap);
        let cap = self.config.max_steps_per_cluster;
        let (ord, sts) = sort_steps(steps);
        let gs = group_ranges(&sts, gap, cap);
        let ghost gview = gs@.map_values(|p: (usize, usize)| (p.0 as int, p.1 as int));
        proof {
            lemma_groups_partition(sts@, gap, cap as nat);
        }
        let mut out: Vec<CascadeCluster> = Vec::new();
        let mut gi: usize = 0;
        assert(gview.take(0) =~= Seq::<(int, int)>::empty());
        while gi < gs.len()
            invariant
                gi <= gs.len(),
                n == steps.len() == ord.len() == sts.len(),
                cfg == self.cfg(),
                gap == max_gap_ns(cfg),
                half == trunc_div(gap as int, 2),
                cap == cfg.max_steps_per_cluster,
                sts@ == sorted_times(steps@),
                ord@.map_values(|k: usize| k as int) == stable_order(step_times(steps@)),
                forall|m: int| 0 <= m < ord.len() ==> #[trigger] ord@[m] < steps.len(),
                gview == gs@.map_values(|p: (usize, usize)| (p.0 as int, p.1 as int)),
                gview == candidate_groups(cfg, steps@),
                forall|m: int|
                    0 <= m < gview.len() ==> 0 <= #[trigger] gview[m].0 < gview[m].1 <= sts.len(),
                out@.map_values(|c: CascadeCluster| c@) == kept_clusters(
                    cfg,
                    steps@,
                    dispatch_records@,
                    observed_at_ms,
                    gview.take(gi as int),
                ),
            decreases gs.len() - gi,
        {
            let lo = gs[gi].0;
            let hi = gs[gi].1;
            let ghost g = (lo as int, hi as int);
            let ghost before = out@;
            proof {
                assert(gview[gi as int] == g);
                assert(gview.take(gi + 1).drop_last() =~= gview.take(gi as int));
                assert(gview.take(gi + 1).last() == g);
            }
            let labels = collect_pane_labels(steps, &ord, &sts, lo, hi, dispatch_records);
            if labels.len() >= self.config.min_pane_count {
                let mut refs: Vec<&str> = Vec::new();
                let mut j: usize = 0;
                while j < labels.len()
                    invariant
                        j <= labels.len(),
                        str_views(refs@) == strings_view(labels@).take(j as int),
                    decreases labels.len() - j,
                {
                    let ghost rb = refs@;
                    let r = labels[j].as_str();
                    refs.push(r);
                    proof {
                        assert(r@ == labels@[j as int]@);
                        assert(refs@ == rb.push(r));
                        assert(str_views(refs@) =~= str_views(rb).push(r@));
                        assert(strings_view(labels@)[j as int] == labels@[j as int]@);
                        assert(str_views(refs@) =~= strings_view(labels@).take(j + 1));
                    }
                    j = j + 1;
                }
                assert(strings_view(labels@).take(labels.len() as int) =~= strings_view(labels@));
                let id = assign_cluster_id(sts[lo], sts[hi - 1], refs.as_slice(), hi - lo);
                let has_gaps = any_gap_above(&sts, lo, hi, half);
                let depth = compute_dag_depth(&sts, lo, hi, gap);
                let cluster = CascadeCluster {
                    cluster_id: id,
                    window_start_ns: sts[lo],
                    window_end_ns: sts[hi - 1],
                    pane_count: labels.len(),
                    step_count: hi - lo,
                    has_temporal_gaps: has_gaps,
                    dag_depth: depth,
                    observed_at_ms,
                };
                out.push(cluster);
                proof {
                    assert(cluster@ == cluster_of(cfg, steps@, dispatch_records@, observed_at_ms, g));
                    assert(out@.map_values(|c: CascadeCluster| c@) =~= before.map_values(
                        |c: CascadeCluster| c@,
                    ).push(cluster@));
                }
            }
            gi = gi + 1;
        }
        assert(gview.take(gs.len() as int) =~= gview);
        out
    }
}

/// Wall-clock milliseconds since the UNIX epoch, read from
/// `std::time::SystemTime::now`; `None` when the clock reads before 1970 or
/// the count does not fit in `i64`. Of a returned value only its
/// non-negativity is stated: what the clock reads is not.
#[verifier::external_body]
pub fn now_ms() -> (r: Option<i64>)
    ensures
        r matches Some(v) ==> v >= 0,
{
    let dur = std::time::SystemTime::now().duration_since(std::time::UNIX_EPOCH).ok()?;
    i64::try_from(dur.as_millis()).ok()
}

impl CascadeCorrelator {
    /// Correlate a batch of steps and dispatch records, stamping every
    /// emitted cluster with one reading of the wall clock (0 when the clock
    /// is unavailable).
    pub fn correlate(&self, steps: &[AtuinStep], dispatch_records: &[DispatchRecord]) -> (r: Vec<
        CascadeCluster,
    >)
        ensures
            exists|t: i64|
                t >= 0 && r@.map_values(|c: CascadeCluster| c@) == correlation(
                    self.cfg(),
                    steps@,
                    dispatch_records@,
                    t,
                ),
    {
        if steps.len() == 0 {
            proof {
                lemma_stable_order_props(step_times(steps@));
                lemma_groups_partition(
                    sorted_times(steps@),
                    max_gap_ns(self.cfg()),
                    self.cfg().max_steps_per_cluster as nat,
                );
            }
            let e: Vec<CascadeCluster> = Vec::new();
            assert(e@.map_values(|c: CascadeCluster| c@) =~= correlation(
                self.cfg(),
                steps@,
                dispatch_records@,
                0,
            ));
            return e;
        }
        let observed_at_ms = match now_ms() {
            Some(t) => t,
            None => 0,
        };
        self.correlate_at(steps, dispatch_records, observed_at_ms)
    }
}

/// A non-empty sequence has a non-empty set of distinct elements.
pub proof fn lemma_dedup_nonempty(s: Seq<Seq<char>>)
    requires
        s.len() > 0,
    ensures
        dedup(s).len() > 0,
    decreases s.len(),
{
    if s.drop_last().len() > 0 {
        lemma_dedup_nonempty(s.drop_last());
    }
}

/// Sorted timestamps never decrease.
pub proof fn lemma_sorted_times_ascending(steps: Seq<AtuinStep>, a: int, b: int)
    requires
        0 <= a <= b < steps.len(),
    ensures
        sorted_times(steps)[a] <= sorted_times(steps)[b],
        sorted_times(steps).len() == steps.len(),
{
    lemma_stable_order_props(step_times(steps));
    if a < b {
        assert(step_times(steps)[stable_order(step_times(steps))[a]] <= step_times(
            steps,
        )[stable_order(step_times(steps))[b]]);
    }
}

proof fn lemma_kept_props(
    cfg: CascadeCorrelatorConfig,
    steps: Seq<AtuinStep>,
    ds: Seq<DispatchRecord>,
    observed_at_ms: i64,
    gs: Seq<(int, int)>,
)
    requires
        forall|i: int|
            0 <= i < gs.len() ==> 0 <= #[trigger] gs[i].0 < gs[i].1 <= steps.len() && gs[i].1
                - gs[i].0 <= if cfg.max_steps_per_cluster == 0 {
                1
            } else {
                cfg.max_steps_per_cluster as int
            },
        forall|i: int, k: int|
            0 <= i < gs.len() && #[trigger] gs[i].0 < k < gs[i].1 ==> #[trigger] window::within_gap(
                sorted_times(steps),
                k,
                max_gap_ns(cfg),
            ),
    ensures
        kept_clusters(cfg, steps, ds, observed_at_ms, gs).len() <= gs.len(),
        forall|i: int|
            0 <= i < kept_clusters(cfg, steps, ds, observed_at_ms, gs).len() ==> {
                let c = #[trigger] kept_clusters(cfg, steps, ds, observed_at_ms, gs)[i];
                &&& c.window_start_ns <= c.window_end_ns
                &&& 1 <= c.step_count
                &&& c.step_count <= if cfg.max_steps_per_cluster == 0 {
                    1
                } else {
                    cfg.max_steps_per_cluster as int
                }
                &&& c.dag_depth == c.step_count
                &&& c.pane_count >= cfg.min_pane_count
                &&& c.pane_count >= 1
                &&& c.observed_at_ms == observed_at_ms
                &&& c.id.len() == 32
                &&& c.id.subrange(0, 16) == "cascade_cluster_"@
                &&& crate::text::is_lower_hex(c.id.subrange(16, 32))
            },
    decreases gs.len(),
{
    if gs.len() > 0 {
        let p = gs.drop_last();
        assert forall|i: int, k: int|
            0 <= i < p.len() && #[trigger] p[i].0 < k < p[i].1 implies #[trigger] window::within_gap(
            sorted_times(steps),
            k,
            max_gap_ns(cfg),
        ) by {
            assert(p[i] == gs[i]);
        }
        lemma_kept_props(cfg, steps, ds, observed_at_ms, p);
        let g = gs.last();
        assert(g == gs[gs.len() - 1]);
        let labels = group_pane_labels(steps, ds, g);
        if labels.len() >= cfg.min_pane_count {
            let c = cluster_of(cfg, steps, ds, observed_at_ms, g);
            let sts = sorted_times(steps);
            lemma_sorted_times_ascending(steps, g.0, g.1 - 1);
            assert forall|m: int| g.0 < m <= g.1 - 1 implies #[trigger] window::within_gap(
                sts,
                m,
                max_gap_ns(cfg),
            ) by {
                assert(gs[gs.len() - 1].0 < m < gs[gs.len() - 1].1);
            }
            lemma_run_full(sts, g.0, g.1 - 1, max_gap_ns(cfg));
            let dl = window_dispatch_labels(ds, sts[g.0], sts[g.1 - 1]);
            if dl.len() > 0 {
                lemma_dedup_nonempty(dl);
            } else {
                lemma_dedup_nonempty(group_sessions(steps, g));
            }
            lemma_cluster_id_shape(sts[g.0], sts[g.1 - 1], labels, (g.1 - g.0) as u64);
            let k = kept_clusters(cfg, steps, ds, observed_at_ms, gs);
            let kp = kept_clusters(cfg, steps, ds, observed_at_ms, p);
            assert(k == kp.push(c));
            assert forall|i: int| 0 <= i < k.len() implies {
                let c = #[trigger] k[i];
                &&& c.window_start_ns <= c.window_end_ns
                &&& 1 <= c.step_count
                &&& c.step_count <= if cfg.max_steps_per_cluster == 0 {
                    1
                } else {
                    cfg.max_steps_per_cluster as int
                }
                &&& c.dag_depth == c.step_count
                &&& c.pane_count >= cfg.min_pane_count
                &&& c.pane_count >= 1
                &&& c.observed_at_ms == observed_at_ms
                &&& c.id.len() == 32
                &&& c.id.subrange(0, 16) == "cascade_cluster_"@
                &&& crate::text::is_lower_hex(c.id.subrange(16, 32))
            } by {
                if i < kp.len() {
                    assert(k[i] == kp[i]);
                }
            }
        }
    }
}

/// Every cluster a correlation pass emits spans a forward time window, holds
/// between one step and the step cap (at least one), has a within-gap run as
/// long as its step count, reaches the minimum pane count with at least one
/// pane, carries the pass's observation time, and has an opaque id of the
/// form `cascade_cluster_` plus 16 lowercase hex digits. A pass emits at most
/// one cluster per candidate group.
pub proof fn lemma_correlation_props(
    cfg: CascadeCorrelatorConfig,
    steps: Seq<AtuinStep>,
    ds: Seq<DispatchRecord>,
    observed_at_ms: i64,
)
    ensures
        correlation(cfg, steps, ds, observed_at_ms).len() <= candidate_groups(cfg, steps).len(),
        forall|i: int|
            0 <= i < correlation(cfg, steps, ds, observed_at_ms).len() ==> {
                let c = #[trigger] correlation(cfg, steps, ds, observed_at_ms)[i];
                &&& c.window_start_ns <= c.window_end_ns
                &&& 1 <= c.step_count
                &&& c.step_count <= if cfg.max_steps_per_cluster == 0 {
                    1
                } else {
                    cfg.max_steps_per_cluster as int
                }
                &&& c.dag_depth == c.step_count
                &&& c.pane_count >= cfg.min_pane_count
                &&& c.pane_count >= 1
                &&& c.observed_at_ms == observed_at_ms
                &&& c.id.len() == 32
                &&& c.id.subrange(0, 16) == "cascade_cluster_"@
                &&& crate::text::is_lower_hex(c.id.subrange(16, 32))
            },
{
    let sts = sorted_times(steps);
    lemma_stable_order_props(step_times(steps));
    assert(sts.len() == steps.len());
    lemma_groups_partition(sts, max_gap_ns(cfg), cfg.max_steps_per_cluster as nat);
    lemma_kept_props(cfg, steps, ds, observed_at_ms, candidate_groups(cfg, steps));
}

/// Cluster `c` covers the sorted steps `lo..hi`, and it is flagged for
/// temporal gaps exactly when two consecutive of those steps lie more than
/// half the maximum gap apart (`max_gap_ms * 1_000_000 / 2` nanoseconds).
pub open spec fn gap_flag_holds(
    cfg: CascadeCorrelatorConfig,
    steps: Seq<AtuinStep>,
    c: ClusterView,
    lo: int,
    hi: int,
) -> bool {
    let sts = sorted_times(steps);
    &&& 0 <= lo < hi <= steps.len()
    &&& c.window_start_ns == sts[lo]
    &&& c.window_end_ns == sts[hi - 1]
    &&& c.step_count == hi - lo
    &&& c.has_temporal_gaps == exists|k: int|
        lo < k < hi && sat_i64(#[trigger] sts[k] - sts[k - 1]) > trunc_div(
            sat_i64(cfg.max_gap_ms * 1_000_000) as int,
            2,
        )
}

/// Some run of sorted steps accounts for cluster `c` as `gap_flag_holds`
/// says.
pub open spec fn cluster_gap_law(cfg: CascadeCorrelatorConfig, steps: Seq<AtuinStep>, c: ClusterView) -> bool {
    exists|lo: int, hi: int| #[trigger] gap_flag_holds(cfg, steps, c, lo, hi)
}

proof fn lemma_cluster_gap_flag(
    cfg: CascadeCorrelatorConfig,
    steps: Seq<AtuinStep>,
    ds: Seq<DispatchRecord>,
    observed_at_ms: i64,
    g: (int, int),
)
    requires
        0 <= g.0 < g.1 <= steps.len(),
    ensures
        cluster_gap_law(cfg, steps, cluster_of(cfg, steps, ds, observed_at_ms, g)),
{
    assert(gap_flag_holds(cfg, steps, cluster_of(cfg, steps, ds, observed_at_ms, g), g.0, g.1));
}

proof fn lemma_kept_gap_flag(
    cfg: CascadeCorrelatorConfig,
    steps: Seq<AtuinStep>,
    ds: Seq<DispatchRecord>,
    observed_at_ms: i64,
    gs: Seq<(int, int)>,
)
    requires
        forall|i: int| 0 <= i < gs.len() ==> 0 <= #[trigger] gs[i].0 < gs[i].1 <= steps.len(),
    ensures
        forall|i: int|
            0 <= i < kept_clusters(cfg, steps, ds, observed_at_ms, gs).len() ==> cluster_gap_law(
                cfg,
                steps,
                #[trigger] kept_clusters(cfg, steps, ds, observed_at_ms, gs)[i],
            ),
    decreases gs.len(),
{
    if gs.len() > 0 {
        let p = gs.drop_last();
        assert forall|i: int| 0 <= i < p.len() implies 0 <= #[trigger] p[i].0 < p[i].1
            <= steps.len() by {
            assert(p[i] == gs[i]);
        }
        lemma_kept_gap_flag(cfg, steps, ds, observed_at_ms, p);
        let g = gs.last();
        assert(g == gs[gs.len() - 1]);
        lemma_cluster_gap_flag(cfg, steps, ds, observed_at_ms, g);
        let k = kept_clusters(cfg, steps, ds, observed_at_ms, gs);
        let kp = kept_clusters(cfg, steps, ds, observed_at_ms, p);
        assert forall|i: int| 0 <= i < k.len() implies cluster_gap_law(cfg, steps, #[trigger] k[i]) by {
            if i < kp.len() {
                assert(k[i] == kp[i]);
            }
        }
    }
}

/// Every cluster of `cs` is accounted for by a run of sorted steps as
/// `gap_flag_holds` says.
pub open spec fn gap_flags_hold(
    cfg: CascadeCorrelatorConfig,
    steps: Seq<AtuinStep>,
    cs: Seq<ClusterView>,
) -> bool {
    forall|i: int| 0 <= i < cs.len() ==> #[trigger] cluster_gap_law(cfg, steps, cs[i])
}

/// Every emitted cluster is a run of consecutive sorted steps (its window
/// runs from the run's first to its last timestamp, its step count is the
/// run's length), and it is flagged for temporal gaps exactly when two
/// consecutive steps of the run are more than half the maximum gap,
/// `max_gap_ms * 1_000_000 / 2` nanoseconds, apart.
pub proof fn lemma_temporal_gap_flag(
    cfg: CascadeCorrelatorConfig,
    steps: Seq<AtuinStep>,
    ds: Seq<DispatchRecord>,
    observed_at_ms: i64,
)
    ensures
        gap_flags_hold(cfg, steps, correlation(cfg, steps, ds, observed_at_ms)),
{
    let sts = sorted_times(steps);
    lemma_stable_order_props(step_times(steps));
    assert(sts.len() == steps.len());
    lemma_groups_partition(sts, max_gap_ns(cfg), cfg.max_steps_per_cluster as nat);
    let gs = candidate_groups(cfg, steps);
    assert forall|i: int| 0 <= i < gs.len() implies 0 <= #[trigger] gs[i].0 < gs[i].1
        <= steps.len() by {
        assert(gs[i] == groups(sts, max_gap_ns(cfg), cfg.max_steps_per_cluster as nat)[i]);
    }
    lemma_kept_gap_flag(cfg, steps, ds, observed_at_ms, gs);
    assert(correlation(cfg, steps, ds, observed_at_ms) == kept_clusters(
        cfg,
        steps,
        ds,
        observed_at_ms,
        gs,
    ));
    let out = correlation(cfg, steps, ds, observed_at_ms);
    assert(out == kept_clusters(cfg, steps, ds, observed_at_ms, gs));
    assert forall|i: int| 0 <= i < out.len() implies #[trigger] cluster_gap_law(cfg, steps, out[i]) by {
        assert(out[i] == kept_clusters(cfg, steps, ds, observed_at_ms, gs)[i]);
    }
}

/// The candidate groups of a pass partition the steps: taken in order they
/// are non-empty, contiguous, cover every step exactly once, and each holds
/// at most the step cap (at least one).
pub proof fn lemma_candidate_groups_partition(cfg: CascadeCorrelatorConfig, steps: Seq<AtuinStep>)
    ensures
        (candidate_groups(cfg, steps).len() == 0) == (steps.len() == 0),
        steps.len() > 0 ==> candidate_groups(cfg, steps)[0].0 == 0,
        steps.len() > 0 ==> candidate_groups(cfg, steps).last().1 == steps.len(),
        forall|i: int|
            0 <= i < candidate_groups(cfg, steps).len() ==> 0 <= #[trigger] candidate_groups(
                cfg,
                steps,
            )[i].0 < candidate_groups(cfg, steps)[i].1,
        forall|i: int|
            0 <= i < candidate_groups(cfg, steps).len() - 1 ==> #[trigger] candidate_groups(
                cfg,
                steps,
            )[i].1 == candidate_groups(cfg, steps)[i + 1].0,
{
    lemma_stable_order_props(step_times(steps));
    lemma_groups_partition(sorted_times(steps), max_gap_ns(cfg), cfg.max_steps_per_cluster as nat);
}

/// A correlation pass does not depend on when it runs: passes over the same
/// steps and dispatch records at two observation times emit the same
/// clusters, field for field, except for the observation time itself.
pub proof fn lemma_correlation_time_independent(
    cfg: CascadeCorrelatorConfig,
    steps: Seq<AtuinStep>,
    ds: Seq<DispatchRecord>,
    t1: i64,
    t2: i64,
)
    ensures
        correlation(cfg, steps, ds, t1).len() == correlation(cfg, steps, ds, t2).len(),
        forall|i: int|
            0 <= i < correlation(cfg, steps, ds, t1).len() ==> (ClusterView {
                observed_at_ms: t2,
                ..#[trigger] correlation(cfg, steps, ds, t1)[i]
            }) == correlation(cfg, steps, ds, t2)[i],
{
    lemma_kept_time_independent(cfg, steps, ds, t1, t2, candidate_groups(cfg, steps));
}

proof fn lemma_kept_time_independent(
    cfg: CascadeCorrelatorConfig,
    steps: Seq<AtuinStep>,
    ds: Seq<DispatchRecord>,
    t1: i64,
    t2: i64,
    gs: Seq<(int, int)>,
)
    ensures
        kept_clusters(cfg, steps, ds, t1, gs).len() == kept_clusters(cfg, steps, ds, t2, gs).len(),
        forall|i: int|
            0 <= i < kept_clusters(cfg, steps, ds, t1, gs).len() ==> (ClusterView {
                observed_at_ms: t2,
                ..#[trigger] kept_clusters(cfg, steps, ds, t1, gs)[i]
            }) == kept_clusters(cfg, steps, ds, t2, gs)[i],
    decreases gs.len(),
{
    if gs.len() > 0 {
        lemma_kept_time_independent(cfg, steps, ds, t1, t2, gs.drop_last());
        let a = kept_clusters(cfg, steps, ds, t1, gs);
        let b = kept_clusters(cfg, steps, ds, t2, gs);
        let pa = kept_clusters(cfg, steps, ds, t1, gs.drop_last());
        let pb = kept_clusters(cfg, steps, ds, t2, gs.drop_last());
        assert forall|i: int| 0 <= i < a.len() implies (ClusterView {
            observed_at_ms: t2,
            ..#[trigger] a[i]
        }) == b[i] by {
            if i < pa.len() {
                assert(a[i] == pa[i]);
                assert(b[i] == pb[i]);
            }
        }
    }
}

} // verus!
