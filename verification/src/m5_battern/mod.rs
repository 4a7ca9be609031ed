//! Battern step recorder: observes Battern-protocol executions in the
//! atuin step stream.
//!
//! [`BatternStepObservation::step_label`] is `Option<BatternStepLabel>`:
//! an unlabelled step surfaces as `None`, never as a placeholder label, and
//! is never discarded.
pub mod step_label;

use vstd::prelude::*;
use crate::arith::{sat_i64, sat_sub, sat_mul_small, trunc_div, half_toward_zero};
use crate::order::stable_order;
use crate::text::{dec_int, hex_fixed, push_dec_i64, push_hex_fixed};
use crate::display::{regex_error_text, sqlite_error_text};
use crate::m4_cascade::{AtuinStep, now_ms, step_times, sorted_times, sort_steps};
use crate::m4_cascade::cluster_id::{fnv1a_64, fnv1a_spec};
pub use self::step_label::{BatternStepLabel, label_name};

verus! {

/// Minimum step count for a summarised Battern to be complete; also the
/// default `min_steps` of the recorder.
pub const MIN_COMPLETE_STEPS: usize = 2;

/// Opaque identifier for one Battern execution.
#[derive(Debug, Clone, PartialEq, Eq, Hash)]
pub struct BatternId(pub String);

impl BatternId {
    /// Borrow the inner opaque string.
    pub fn as_str(&self) -> (r: &str)
        ensures
            r@ == self.0@,
    {
        self.0.as_str()
    }
}

/// The id of the Battern whose first step is at `ts`: `battern_` then the
/// FNV-1a hash of the decimal timestamp as 16 lowercase hex digits.
pub open spec fn battern_id_text(ts: i64) -> Seq<char> {
    "battern_"@ + hex_fixed(
        fnv1a_spec(vstd::utf8::encode_utf8(dec_int(ts as int))) as nat,
        16,
        false,
    )
}

/// Derive a deterministic opaque battern id from the first-dispatch
/// timestamp.
pub fn derive_battern_id(first_dispatch_ts_ns: i64) -> (id: BatternId)
    ensures
        id.0@ == battern_id_text(first_dispatch_ts_ns),
{
    let mut digits = String::new();
    push_dec_i64(&mut digits, first_dispatch_ts_ns);
    let h = fnv1a_64(digits.as_str().as_bytes());
    let mut text = String::from_str("battern_");
    push_hex_fixed(&mut text, h, 16, false);
    BatternId(text)
}

/// One observed step within a Battern execution.
#[derive(Debug, Clone)]
pub struct BatternStepObservation {
    /// Opaque battern id this step belongs to.
    pub battern_id: BatternId,
    /// Position within the battern (0-indexed).
    pub step_index: usize,
    /// `None` when the step matched no heuristic.
    pub step_label: Option<BatternStepLabel>,
    /// Duration of the step in milliseconds.
    pub duration_ms: i64,
    /// Session identifier.
    pub session: String,
    /// Atuin exit code for the step's underlying command.
    pub exit_code: i32,
    /// `true` if the battern was still open at batch end.
    pub is_partial: bool,
    /// Wall-clock time the observation was recorded (ms since epoch).
    pub recorded_at_ms: i64,
}

/// The mathematical content of a [`BatternStepObservation`].
pub struct ObservationView {
    pub battern_id: Seq<char>,
    pub step_index: nat,
    pub step_label: Option<BatternStepLabel>,
    pub duration_ms: i64,
    pub session: Seq<char>,
    pub exit_code: i32,
    pub is_partial: bool,
    pub recorded_at_ms: i64,
}

impl View for BatternStepObservation {
    type V = ObservationView;

    open spec fn view(&self) -> ObservationView {
        ObservationView {
            battern_id: self.battern_id.0@,
            step_index: self.step_index as nat,
            step_label: self.step_label,
            duration_ms: self.duration_ms,
            session: self.session@,
            exit_code: self.exit_code,
            is_partial: self.is_partial,
            recorded_at_ms: self.recorded_at_ms,
        }
    }
}

/// Per-battern summary.
#[derive(Debug, Clone)]
pub struct BatternRecord {
    /// Opaque battern id.
    pub battern_id: BatternId,
    /// Total step count.
    pub total_steps: usize,
    /// Steps that received a label.
    pub labelled_steps: usize,
    /// Steps whose `exit_code != 0`.
    pub failed_steps: usize,
    /// Sum of `duration_ms` over all steps.
    pub total_duration_ms: i64,
    /// `true` if any step is partial.
    pub is_partial: bool,
    /// `true` when `total_steps >= MIN_COMPLETE_STEPS` and not partial.
    pub is_complete: bool,
}

/// Configuration for the Battern step recorder.
#[derive(Debug, Clone)]
pub struct BatternStepRecordConfig {
    /// Maximum wall-clock gap between steps within one battern (ms).
    pub inter_step_timeout_ms: i64,
    /// Minimum step count for a battern to emit.
    pub min_steps: usize,
    /// atuin SQLite path.
    pub atuin_db_path: String,
}

impl BatternStepRecordConfig {
    /// The default configuration for a user whose home directory is `home`:
    /// a 30 min step timeout, at least 2 steps, and atuin's history database
    /// under `home`.
    pub fn for_home(home: &str) -> (c: Self)
        ensures
            c.inter_step_timeout_ms == 1_800_000,
            c.min_steps == 2,
            c.atuin_db_path@ == home@ + "/.local/share/atuin/history.db"@,
    {
        let mut path = String::new();
        crate::text::push_str(&mut path, home);
        crate::text::push_str(&mut path, "/.local/share/atuin/history.db");
        BatternStepRecordConfig { inter_step_timeout_ms: 1_800_000, min_steps: 2, atuin_db_path: path }
    }
}

// ---------------------------------------------------------------------------
// Regular-expression heuristics.
// ---------------------------------------------------------------------------

#[verifier::external_type_specification]
#[verifier::external_body]
pub struct ExRegex(regex::Regex);

#[verifier::external_type_specification]
#[verifier::external_body]
pub struct ExRegexError(regex::Error);

#[verifier::external_type_specification]
#[verifier::external_body]
pub struct ExSqliteError(rusqlite::Error);

/// Whether `regex::Regex::new` accepts `pattern`.
pub uninterp spec fn regex_compiles(pattern: Seq<char>) -> bool;

/// Whether the regular expression `pattern` matches somewhere in `haystack`,
/// as `regex::Regex::is_match` decides it.
pub uninterp spec fn regex_is_match(pattern: Seq<char>, haystack: Seq<char>) -> bool;

/// A compiled heuristic pattern, kept with its source text.
#[derive(Debug)]
pub struct Matcher {
    re: regex::Regex,
    source: String,
}

impl View for Matcher {
    type V = Seq<char>;

    closed spec fn view(&self) -> Seq<char> {
        self.source@
    }
}

/// `regex::Regex::new(pattern)`: succeeds exactly when the pattern
/// compiles; a compiled matcher is kept with `pattern` as its source, and
/// it is the only way a `Matcher` is made.
#[verifier::external_body]
fn compile_pattern(pattern: &str) -> (r: Result<Matcher, regex::Error>)
    ensures
        r is Ok == regex_compiles(pattern@),
        r matches Ok(m) ==> m@ == pattern@,
{
    regex::Regex::new(pattern).map(|re| Matcher { re, source: pattern.to_string() })
}

/// `regex::Regex::is_match` of the matcher compiled from `m@` on `haystack`.
#[verifier::external_body]
fn pattern_is_match(m: &Matcher, haystack: &str) -> (b: bool)
    ensures
        b == regex_is_match(m@, haystack@),
{
    m.re.is_match(haystack)
}

/// Failure modes for the Battern step recorder.
#[derive(Debug)]
#[non_exhaustive]
pub enum BatternError {
    /// SQLite error reading atuin.
    AtuinIo(rusqlite::Error),
    /// A heuristic pattern failed to compile.
    RegexCompile(regex::Error),
}

impl From<rusqlite::Error> for BatternError {
    /// A SQLite failure reading atuin.
    fn from(e: rusqlite::Error) -> (r: Self) {
        BatternError::AtuinIo(e)
    }
}

impl vstd::std_specs::convert::FromSpecImpl<rusqlite::Error> for BatternError {
    open spec fn obeys_from_spec() -> bool {
        true
    }

    open spec fn from_spec(e: rusqlite::Error) -> Self {
        BatternError::AtuinIo(e)
    }
}

impl From<regex::Error> for BatternError {
    /// A heuristic pattern that failed to compile.
    fn from(e: regex::Error) -> (r: Self) {
        BatternError::RegexCompile(e)
    }
}

impl vstd::std_specs::convert::FromSpecImpl<regex::Error> for BatternError {
    open spec fn obeys_from_spec() -> bool {
        true
    }

    open spec fn from_spec(e: regex::Error) -> Self {
        BatternError::RegexCompile(e)
    }
}

impl BatternError {
    /// The human-readable message: `atuin io: ...` or `regex compile: ...`.
    pub fn message(&self) -> (s: String)
        ensures
            self is AtuinIo ==> s@.len() >= 10 && s@.subrange(0, 10) == "atuin io: "@,
            self is RegexCompile ==> s@.len() >= 15 && s@.subrange(0, 15)
                == "regex compile: "@,
    {
        let (mut s, inner) = match self {
            BatternError::AtuinIo(e) => (String::from_str("atuin io: "), sqlite_error_text(e)),
            BatternError::RegexCompile(e) => (
                String::from_str("regex compile: "),
                regex_error_text(e),
            ),
        };
        let ghost head = s@;
        crate::text::push_str(&mut s, inner.as_str());
        proof {
            reveal_strlit("atuin io: ");
            reveal_strlit("regex compile: ");
            assert(s@.subrange(0, head.len() as int) =~= head);
        }
        s
    }
}

/// The heuristic table, in precedence order: the first pattern that matches
/// a command gives its label.
pub open spec fn heuristic_table() -> Seq<(Seq<char>, BatternStepLabel)> {
    seq![
        ("^cc-dispatch\\b"@, BatternStepLabel::Dispatch),
        ("^cc-(health|gate-check)\\b"@, BatternStepLabel::Gate),
        ("^curl .*:[0-9]+/health\\b"@, BatternStepLabel::Gate),
        ("^cc-(harvest|audit)\\b"@, BatternStepLabel::Collect),
        ("^cc-cascade\\b"@, BatternStepLabel::Compose),
        ("^(rg|atuin search|Read)\\b"@, BatternStepLabel::Design),
    ]
}

/// The label of the first pattern of `t` that matches `cmd`, if any.
pub open spec fn first_label(t: Seq<(Seq<char>, BatternStepLabel)>, cmd: Seq<char>) -> Option<
    BatternStepLabel,
>
    decreases t.len(),
{
    if t.len() == 0 {
        None
    } else if regex_is_match(t[0].0, cmd) {
        Some(t[0].1)
    } else {
        first_label(t.drop_first(), cmd)
    }
}

/// The step recorder.
#[derive(Debug)]
pub struct BatternStepRecord {
    config: BatternStepRecordConfig,
    heuristics: Vec<(Matcher, BatternStepLabel)>,
}

/// Source text and label of heuristic `i` of the table.
fn heuristic_source(i: usize) -> (r: (&'static str, BatternStepLabel))
    requires
        i < 6,
    ensures
        r.0@ == heuristic_table()[i as int].0,
        r.1 == heuristic_table()[i as int].1,
{
    match i {
        0 => ("^cc-dispatch\\b", BatternStepLabel::Dispatch),
        1 => ("^cc-(health|gate-check)\\b", BatternStepLabel::Gate),
        2 => ("^curl .*:[0-9]+/health\\b", BatternStepLabel::Gate),
        3 => ("^cc-(harvest|audit)\\b", BatternStepLabel::Collect),
        4 => ("^cc-cascade\\b", BatternStepLabel::Compose),
        _ => ("^(rg|atuin search|Read)\\b", BatternStepLabel::Design),
    }
}

/// Labels of the steps in stable timestamp order.
pub open spec fn sorted_labels(t: Seq<(Seq<char>, BatternStepLabel)>, steps: Seq<AtuinStep>) -> Seq<
    Option<BatternStepLabel>,
> {
    Seq::new(
        steps.len(),
        |k: int| first_label(t, steps[stable_order(step_times(steps))[k]].command@),
    )
}

/// Some step among sorted positions `lo..hi` is a dispatch.
pub open spec fn has_dispatch(lbl: Seq<Option<BatternStepLabel>>, lo: int, hi: int) -> bool {
    exists|j: int| lo <= j < hi && #[trigger] lbl[j] == Some(BatternStepLabel::Dispatch)
}

/// The inter-step timeout in nanoseconds (saturating).
pub open spec fn timeout_ns(cfg: BatternStepRecordConfig) -> i64 {
    sat_i64(cfg.inter_step_timeout_ms * 1_000_000)
}

/// Sorted position `k` opens a new battern after the batterns `prev`: there
/// is none yet, the step comes more than `timeout` after the previous one,
/// or it is a dispatch and the current battern already holds one.
pub open spec fn opens_battern(
    sts: Seq<i64>,
    lbl: Seq<Option<BatternStepLabel>>,
    timeout: i64,
    prev: Seq<(int, int)>,
    k: int,
) -> bool {
    prev.len() == 0 || sat_i64(sts[k] - sts[k - 1]) > timeout || (lbl[k] == Some(
        BatternStepLabel::Dispatch,
    ) && has_dispatch(lbl, prev.last().0, k))
}

/// The batterns of the first `n` sorted positions, as half-open ranges.
pub open spec fn batterns(
    sts: Seq<i64>,
    lbl: Seq<Option<BatternStepLabel>>,
    timeout: i64,
    n: nat,
) -> Seq<(int, int)>
    decreases n,
{
    if n == 0 {
        seq![]
    } else {
        let prev = batterns(sts, lbl, timeout, (n - 1) as nat);
        let k = n - 1;
        if opens_battern(sts, lbl, timeout, prev, k) {
            prev.push((k, k + 1))
        } else {
            prev.update(prev.len() - 1, (prev.last().0, k + 1))
        }
    }
}

/// The batterns of a batch of steps.
pub open spec fn all_batterns(
    t: Seq<(Seq<char>, BatternStepLabel)>,
    cfg: BatternStepRecordConfig,
    steps: Seq<AtuinStep>,
) -> Seq<(int, int)> {
    batterns(sorted_times(steps), sorted_labels(t, steps), timeout_ns(cfg), steps.len())
}

/// Battern `bi` of `bs` is the last one and its last step is less than half
/// the timeout before the recording time.
pub open spec fn battern_is_partial(
    cfg: BatternStepRecordConfig,
    sts: Seq<i64>,
    recorded_at_ms: i64,
    bs: Seq<(int, int)>,
    bi: int,
) -> bool {
    bi + 1 == bs.len() && sat_i64(sat_i64(recorded_at_ms * 1_000_000) - sts[bs[bi].1 - 1])
        < trunc_div(timeout_ns(cfg) as int, 2)
}

/// The observation of step `j` of battern `bi`.
pub open spec fn step_observation(
    t: Seq<(Seq<char>, BatternStepLabel)>,
    cfg: BatternStepRecordConfig,
    steps: Seq<AtuinStep>,
    recorded_at_ms: i64,
    bs: Seq<(int, int)>,
    bi: int,
    j: int,
) -> ObservationView {
    let sts = sorted_times(steps);
    let ord = stable_order(step_times(steps));
    let b = bs[bi];
    let k = b.0 + j;
    let next = if k + 1 < b.1 {
        sts[k + 1]
    } else {
        sts[k]
    };
    let el = sat_i64(next - sts[k]);
    ObservationView {
        battern_id: battern_id_text(sts[b.0]),
        step_index: j as nat,
        step_label: first_label(t, steps[ord[k]].command@),
        duration_ms: (if el > 0 {
            el / 1_000_000
        } else {
            0
        }) as i64,
        session: steps[ord[k]].session@,
        exit_code: steps[ord[k]].exit,
        is_partial: battern_is_partial(cfg, sts, recorded_at_ms, bs, bi),
        recorded_at_ms,
    }
}

/// The observations of battern `bi`, one per step in order.
pub open spec fn battern_observations(
    t: Seq<(Seq<char>, BatternStepLabel)>,
    cfg: BatternStepRecordConfig,
    steps: Seq<AtuinStep>,
    recorded_at_ms: i64,
    bs: Seq<(int, int)>,
    bi: int,
) -> Seq<ObservationView> {
    Seq::new(
        (bs[bi].1 - bs[bi].0) as nat,
        |j: int| step_observation(t, cfg, steps, recorded_at_ms, bs, bi, j),
    )
}

/// Observations of the first `m` batterns that reach `min_steps`.
pub open spec fn observations_upto(
    t: Seq<(Seq<char>, BatternStepLabel)>,
    cfg: BatternStepRecordConfig,
    steps: Seq<AtuinStep>,
    recorded_at_ms: i64,
    bs: Seq<(int, int)>,
    m: nat,
) -> Seq<ObservationView>
    decreases m,
{
    if m == 0 {
        seq![]
    } else {
        let p = observations_upto(t, cfg, steps, recorded_at_ms, bs, (m - 1) as nat);
        if bs[m - 1].1 - bs[m - 1].0 >= cfg.min_steps {
            p + battern_observations(t, cfg, steps, recorded_at_ms, bs, m - 1)
        } else {
            p
        }
    }
}

/// The observations a pass over `steps` records at `recorded_at_ms`.
pub open spec fn observation_model(
    t: Seq<(Seq<char>, BatternStepLabel)>,
    cfg: BatternStepRecordConfig,
    steps: Seq<AtuinStep>,
    recorded_at_ms: i64,
) -> Seq<ObservationView> {
    let bs = all_batterns(t, cfg, steps);
    observations_upto(t, cfg, steps, recorded_at_ms, bs, bs.len())
}

/// The batterns partition the sorted positions `0..n`: non-empty,
/// contiguous, in order, covering every position once.
pub proof fn lemma_batterns_partition(
    sts: Seq<i64>,
    lbl: Seq<Option<BatternStepLabel>>,
    timeout: i64,
    n: nat,
)
    ensures
        (batterns(sts, lbl, timeout, n).len() == 0) == (n == 0),
        n > 0 ==> batterns(sts, lbl, timeout, n)[0].0 == 0,
        n > 0 ==> batterns(sts, lbl, timeout, n).last().1 == n,
        forall|i: int|
            0 <= i < batterns(sts, lbl, timeout, n).len() ==> 0 <= #[trigger] batterns(
                sts,
                lbl,
                timeout,
                n,
            )[i].0 < batterns(sts, lbl, timeout, n)[i].1 <= n,
        forall|i: int|
            0 <= i < batterns(sts, lbl, timeout, n).len() - 1 ==> #[trigger] batterns(
                sts,
                lbl,
                timeout,
                n,
            )[i].1 == batterns(sts, lbl, timeout, n)[i + 1].0,
    decreases n,
{
    if n > 0 {
        lemma_batterns_partition(sts, lbl, timeout, (n - 1) as nat);
    }
}

impl BatternStepRecord {
    /// The configuration this recorder was built with.
    pub closed spec fn cfg(&self) -> BatternStepRecordConfig {
        self.config
    }

    /// The heuristic table of this recorder: pattern source and label, in
    /// precedence order.
    pub closed spec fn table(&self) -> Seq<(Seq<char>, BatternStepLabel)> {
        self.heuristics@.map_values(|p: (Matcher, BatternStepLabel)| (p.0@, p.1))
    }

    /// Construct with the given configuration, compiling the heuristic
    /// table; fails with `RegexCompile` exactly when some pattern of the
    /// table does not compile.
    pub fn new(config: BatternStepRecordConfig) -> (r: Result<Self, BatternError>)
        ensures
            r is Ok == (forall|i: int| 0 <= i < 6 ==> regex_compiles(#[trigger] heuristic_table()[i].0)),
            r matches Ok(rec) ==> rec.cfg() == config && rec.table() == heuristic_table(),
            r matches Err(e) ==> e is RegexCompile,
    {
        let mut heuristics: Vec<(Matcher, BatternStepLabel)> = Vec::new();
        let mut i: usize = 0;
        while i < 6
            invariant
                i <= 6,
                heuristics@.map_values(|p: (Matcher, BatternStepLabel)| (p.0@, p.1))
                    == heuristic_table().take(i as int),
                forall|m: int| 0 <= m < i ==> regex_compiles(#[trigger] heuristic_table()[m].0),
            decreases 6 - i,
        {
            let (src, label) = heuristic_source(i);
            match compile_pattern(src) {
                Ok(m) => {
                    let ghost before = heuristics@;
                    let ghost mv = m@;
                    assert(mv == heuristic_table()[i as int].0);
                    assert(before.map_values(|p: (Matcher, BatternStepLabel)| (p.0@, p.1)).len()
                        == before.len());
                    assert(before.len() == i);
                    heuristics.push((m, label));
                    assert(heuristics@[i as int].0@ == mv);
                    assert(heuristics@.map_values(|p: (Matcher, BatternStepLabel)| (p.0@, p.1))
                        =~= heuristic_table().take(i + 1));
                },
                Err(e) => {
                    return Err(BatternError::from(e));
                },
            }
            i = i + 1;
        }
        assert(heuristic_table().take(6) =~= heuristic_table());
        Ok(BatternStepRecord { config, heuristics })
    }

    /// Borrow the configuration.
    pub fn config(&self) -> (r: &BatternStepRecordConfig)
        ensures
            *r == self.cfg(),
    {
        &self.config
    }

    /// Match a command against the heuristic table: the label of the first
    /// matching pattern, or `None`. There is no fallback label.
    pub fn label_command(&self, command: &str) -> (r: Option<BatternStepLabel>)
        ensures
            r == first_label(self.table(), command@),
    {
        let mut i: usize = 0;
        assert(self.table().skip(0) =~= self.table());
        while i < self.heuristics.len()
            invariant
                i <= self.heuristics.len() == self.table().len(),
                first_label(self.table(), command@) == first_label(
                    self.table().skip(i as int),
                    command@,
                ),
            decreases self.heuristics.len() - i,
        {
            let ghost rest = self.table().skip(i as int);
            assert(rest[0] == (self.heuristics@[i as int].0@, self.heuristics@[i as int].1));
            assert(rest.drop_first() =~= self.table().skip(i + 1));
            if pattern_is_match(&self.heuristics[i].0, command) {
                return Some(self.heuristics[i].1);
            }
            i = i + 1;
        }
        None
    }
}

impl BatternStepRecord {
    /// Observe a batch of atuin steps, recording at `recorded_at_ms`.
    /// Steps are ordered by timestamp (stable on ties) and split into
    /// batterns on an inter-step timeout or on a dispatch once the current
    /// battern already holds one; batterns with fewer than `min_steps`
    /// steps are dropped, and the last one is partial when its last step is
    /// within half the timeout of the recording time.
    #[verifier::rlimit(40)]
    #[verifier::spinoff_prover]
    pub fn observe_at(&self, steps: &[AtuinStep], recorded_at_ms: i64) -> (r: Vec<
        BatternStepObservation,
    >)
        ensures
            r@.map_values(|o: BatternStepObservation| o@) == observation_model(
                self.table(),
                self.cfg(),
                steps@,
                recorded_at_ms,
            ),
    {
        let ghost t = self.table();
        let ghost cfg = self.cfg();
        let n = steps.len();
        let (ord, sts) = sort_steps(steps);
        let timeout = sat_mul_small(self.config.inter_step_timeout_ms, 1_000_000);
        let ghost lblm = sorted_labels(t, steps@);
        let mut lbl: Vec<Option<BatternStepLabel>> = Vec::new();
        let mut k: usize = 0;
        while k < n
            invariant
                k <= n == steps.len() == ord.len(),
                t == self.table(),
                lblm == sorted_labels(t, steps@),
                ord@.map_values(|k: usize| k as int) == stable_order(step_times(steps@)),
                forall|m: int| 0 <= m < ord.len() ==> #[trigger] ord@[m] < steps.len(),
                lbl@ == lblm.take(k as int),
            decreases n - k,
        {
            let l = self.label_command(steps[ord[k]].command.as_str());
            lbl.push(l);
            proof {
                assert(stable_order(step_times(steps@))[k as int] == ord@[k as int] as int);
                assert(lbl@ =~= lblm.take(k + 1));
            }
            k = k + 1;
        }
        assert(lbl@ =~= lblm);
        let mut bs: Vec<(usize, usize)> = Vec::new();
        let mut cur_disp = false;
        let mut k: usize = 0;
        while k < n
            invariant
                k <= n == sts.len() == lbl.len(),
                lbl@ == lblm,
                bs@.map_values(|p: (usize, usize)| (p.0 as int, p.1 as int)) == batterns(
                    sts@,
                    lblm,
                    timeout,
                    k as nat,
                ),
                bs.len() > 0 ==> cur_disp == has_dispatch(lblm, bs@.last().0 as int, k as int),
            decreases n - k,
        {
            let ghost bview = bs@.map_values(|p: (usize, usize)| (p.0 as int, p.1 as int));
            proof {
                lemma_batterns_partition(sts@, lblm, timeout, k as nat);
                if k > 0 {
                    let lst = bs.len() - 1;
                    assert(bview[lst as int] == (bs@[lst as int].0 as int, bs@[lst as int].1 as int));
                }
            }
            let is_disp = match lbl[k] {
                Some(BatternStepLabel::Dispatch) => true,
                _ => false,
            };
            let open = if bs.len() == 0 {
                true
            } else {
                sat_sub(sts[k], sts[k - 1]) > timeout || (is_disp && cur_disp)
            };
            if open {
                bs.push((k, k + 1));
                cur_disp = is_disp;
                proof {
                    assert(bs@.map_values(|p: (usize, usize)| (p.0 as int, p.1 as int)) =~= bview.push(
                        (k as int, k + 1),
                    ));
                    if is_disp {
                        assert(lblm[k as int] == Some(BatternStepLabel::Dispatch));
                    }
                }
            } else {
                let last = bs.len() - 1;
                let s = bs[last].0;
                bs.set(last, (s, k + 1));
                cur_disp = cur_disp || is_disp;
                proof {
                    assert(bs@.map_values(|p: (usize, usize)| (p.0 as int, p.1 as int)) =~= bview.update(
                        last as int,
                        (s as int, k + 1),
                    ));
                    if is_disp {
                        assert(lblm[k as int] == Some(BatternStepLabel::Dispatch));
                    }
                    if has_dispatch(lblm, s as int, k + 1) && !is_disp {
                        let j = choose|j: int|
                            s <= j < k + 1 && #[trigger] lblm[j] == Some(
                                BatternStepLabel::Dispatch,
                            );
                        assert(j < k);
                    }
                }
            }
            k = k + 1;
        }
        let ghost bsm = bs@.map_values(|p: (usize, usize)| (p.0 as int, p.1 as int));
        assert(bsm == all_batterns(t, cfg, steps@));
        proof {
            lemma_batterns_partition(sts@, lblm, timeout, n as nat);
        }
        let wallclock = sat_mul_small(recorded_at_ms, 1_000_000);
        let half = half_toward_zero(timeout);
        let total = bs.len();
        let mut out: Vec<BatternStepObservation> = Vec::new();
        let mut bi: usize = 0;
        while bi < total
            invariant
                bi <= total == bs.len(),
                n == steps.len() == ord.len() == sts.len() == lbl.len(),
                t == self.table(),
                cfg == self.cfg(),
                sts@ == sorted_times(steps@),
                lbl@ == lblm,
                lblm == sorted_labels(t, steps@),
                timeout == timeout_ns(cfg),
                wallclock == sat_i64(recorded_at_ms * 1_000_000),
                half == trunc_div(timeout as int, 2),
                ord@.map_values(|k: usize| k as int) == stable_order(step_times(steps@)),
                forall|m: int| 0 <= m < ord.len() ==> #[trigger] ord@[m] < steps.len(),
                bsm == bs@.map_values(|p: (usize, usize)| (p.0 as int, p.1 as int)),
                bsm == all_batterns(t, cfg, steps@),
                forall|i: int| 0 <= i < bsm.len() ==> 0 <= #[trigger] bsm[i].0 < bsm[i].1 <= n,
                out@.map_values(|o: BatternStepObservation| o@) == observations_upto(
                    t,
                    cfg,
                    steps@,
                    recorded_at_ms,
                    bsm,
                    bi as nat,
                ),
            decreases total - bi,
        {
            let lo = bs[bi].0;
            let hi = bs[bi].1;
            proof {
                assert(bsm[bi as int] == (lo as int, hi as int));
            }
            if hi - lo >= self.config.min_steps {
                let id = derive_battern_id(sts[lo]);
                let partial = bi + 1 == total && sat_sub(wallclock, sts[hi - 1]) < half;
                let ghost base = out@.map_values(|o: BatternStepObservation| o@);
                let ghost bo = battern_observations(t, cfg, steps@, recorded_at_ms, bsm, bi as int);
                let mut k: usize = lo;
                assert(bo.take(0) =~= Seq::<ObservationView>::empty());
                assert(base + bo.take(0) =~= base);
                while k < hi
                    invariant
                        lo <= k <= hi <= n,
                        lo < hi,
                        n == steps.len() == ord.len() == sts.len() == lbl.len(),
                        t == self.table(),
                        cfg == self.cfg(),
                        sts@ == sorted_times(steps@),
                        lbl@ == lblm,
                        lblm == sorted_labels(t, steps@),
                        ord@.map_values(|k: usize| k as int) == stable_order(step_times(steps@)),
                        forall|m: int| 0 <= m < ord.len() ==> #[trigger] ord@[m] < steps.len(),
                        bsm[bi as int] == (lo as int, hi as int),
                        bi < bsm.len(),
                        id.0@ == battern_id_text(sts@[lo as int]),
                        partial == battern_is_partial(cfg, sts@, recorded_at_ms, bsm, bi as int),
                        bo == battern_observations(t, cfg, steps@, recorded_at_ms, bsm, bi as int),
                        out@.map_values(|o: BatternStepObservation| o@) == base + bo.take(k - lo),
                    decreases hi - k,
                {
                    let next = if k + 1 < hi {
                        sts[k + 1]
                    } else {
                        sts[k]
                    };
                    let el = sat_sub(next, sts[k]);
                    let dur = if el > 0 {
                        el / 1_000_000
                    } else {
                        0
                    };
                    let j = ord[k];
                    let obs = BatternStepObservation {
                        battern_id: BatternId(id.0.clone()),
                        step_index: k - lo,
                        step_label: lbl[k],
                        duration_ms: dur,
                        session: steps[j].session.clone(),
                        exit_code: steps[j].exit,
                        is_partial: partial,
                        recorded_at_ms,
                    };
                    let ghost ob = out@;
                    out.push(obs);
                    proof {
                        assert(stable_order(step_times(steps@))[k as int] == j as int);
                        assert(obs@ == step_observation(
                            t,
                            cfg,
                            steps@,
                            recorded_at_ms,
                            bsm,
                            bi as int,
                            k - lo,
                        ));
                        assert(obs@ == bo[k - lo]);
                        assert(out@.map_values(|o: BatternStepObservation| o@) =~= ob.map_values(
                            |o: BatternStepObservation| o@,
                        ).push(obs@));
                        assert(bo.take(k - lo + 1) =~= bo.take(k - lo).push(bo[k - lo]));
                        assert(out@.map_values(|o: BatternStepObservation| o@) =~= base + bo.take(
                            k - lo + 1,
                        ));
                    }
                    k = k + 1;
                }
                assert(bo.take(hi - lo) =~= bo);
            }
            bi = bi + 1;
        }
        out
    }

    /// Observe a batch of atuin steps, stamping every observation with one
    /// reading of the wall clock (0 when the clock is unavailable).
    pub fn observe(&self, steps: &[AtuinStep]) -> (r: Vec<BatternStepObservation>)
        ensures
            exists|t: i64|
                t >= 0 && r@.map_values(|o: BatternStepObservation| o@) == observation_model(
                    self.table(),
                    self.cfg(),
                    steps@,
                    t,
                ),
    {
        if steps.len() == 0 {
            let e: Vec<BatternStepObservation> = Vec::new();
            proof {
                lemma_batterns_partition(
                    sorted_times(steps@),
                    sorted_labels(self.table(), steps@),
                    timeout_ns(self.cfg()),
                    0,
                );
            }
            assert(e@.map_values(|o: BatternStepObservation| o@) =~= observation_model(
                self.table(),
                self.cfg(),
                steps@,
                0,
            ));
            return e;
        }
        let recorded_at_ms = match now_ms() {
            Some(t) => t,
            None => 0,
        };
        self.observe_at(steps, recorded_at_ms)
    }
}

/// Number of observations that carry a label.
pub open spec fn labelled_count(s: Seq<BatternStepObservation>) -> nat
    decreases s.len(),
{
    if s.len() == 0 {
        0
    } else {
        labelled_count(s.drop_last()) + if s.last().step_label is Some {
            1nat
        } else {
            0nat
        }
    }
}

/// Whether an observation carries a label, whichever it is.
pub open spec fn carries_label(o: BatternStepObservation) -> bool {
    match o.step_label {
        Some(_) => true,
        None => false,
    }
}

/// The labelled count is the number of observations that carry a label,
/// whichever label it is: exactly those the label filter keeps.
pub proof fn lemma_labelled_count_counts_every_label(s: Seq<BatternStepObservation>)
    ensures
        labelled_count(s) == s.filter(|o: BatternStepObservation| carries_label(o)).len(),
    decreases s.len(),
{
    reveal(Seq::filter);
    if s.len() > 0 {
        lemma_labelled_count_counts_every_label(s.drop_last());
    }
}

/// Appending an observation that carries any label adds one to the
/// labelled count; appending an unlabelled one adds nothing.
pub proof fn lemma_labelled_count_push(s: Seq<BatternStepObservation>, o: BatternStepObservation)
    ensures
        labelled_count(s.push(o)) == labelled_count(s) + if carries_label(o) {
            1int
        } else {
            0int
        },
{
    assert(s.push(o).drop_last() =~= s);
}

/// Number of observations with a non-zero exit code.
pub open spec fn failed_count(s: Seq<BatternStepObservation>) -> nat
    decreases s.len(),
{
    if s.len() == 0 {
        0
    } else {
        failed_count(s.drop_last()) + if s.last().exit_code != 0 {
            1nat
        } else {
            0nat
        }
    }
}

/// Sum of the observation durations.
pub open spec fn duration_sum(s: Seq<BatternStepObservation>) -> int
    decreases s.len(),
{
    if s.len() == 0 {
        0
    } else {
        duration_sum(s.drop_last()) + s.last().duration_ms
    }
}

/// Every running total of the durations fits in an `i64`.
pub open spec fn durations_fit(s: Seq<BatternStepObservation>) -> bool {
    forall|i: int| 0 <= i <= s.len() ==> i64::MIN <= #[trigger] duration_sum(s.take(i)) <= i64::MAX
}

impl BatternStepRecord {
    /// Summarise a set of observations sharing one `battern_id` (taken from
    /// the first observation; `battern_empty` for an empty set).
    /// `is_complete` holds iff no observation is partial and there are at
    /// least `MIN_COMPLETE_STEPS` of them.
    pub fn summarise(observations: &[BatternStepObservation]) -> (r: BatternRecord)
        requires
            durations_fit(observations@),
        ensures
            observations.len() == 0 ==> r.battern_id.0@ == "battern_empty"@,
            observations.len() > 0 ==> r.battern_id.0@ == observations@[0].battern_id.0@,
            r.total_steps == observations.len(),
            r.labelled_steps == labelled_count(observations@),
            r.failed_steps == failed_count(observations@),
            r.total_duration_ms == duration_sum(observations@),
            r.is_partial == exists|i: int|
                0 <= i < observations.len() && #[trigger] observations@[i].is_partial,
            r.is_complete == (!r.is_partial && observations.len() >= MIN_COMPLETE_STEPS),
    {
        if observations.len() == 0 {
            return BatternRecord {
                battern_id: BatternId(String::from_str("battern_empty")),
                total_steps: 0,
                labelled_steps: 0,
                failed_steps: 0,
                total_duration_ms: 0,
                is_partial: false,
                is_complete: false,
            };
        }
        let battern_id = BatternId(observations[0].battern_id.0.clone());
        let total_steps = observations.len();
        let mut labelled: usize = 0;
        let mut failed: usize = 0;
        let mut total: i64 = 0;
        let mut partial = false;
        let mut i: usize = 0;
        assert(observations@.take(0) =~= Seq::<BatternStepObservation>::empty());
        while i < observations.len()
            invariant
                i <= observations.len(),
                durations_fit(observations@),
                labelled == labelled_count(observations@.take(i as int)),
                failed == failed_count(observations@.take(i as int)),
                total == duration_sum(observations@.take(i as int)),
                labelled <= i,
                failed <= i,
                partial == exists|j: int| 0 <= j < i && #[trigger] observations@[j].is_partial,
            decreases observations.len() - i,
        {
            let o = &observations[i];
            let ghost cur = observations@.take(i + 1);
            proof {
                assert(cur.drop_last() =~= observations@.take(i as int));
                assert(cur.last() == observations@[i as int]);
                assert(i64::MIN <= duration_sum(cur) <= i64::MAX);
            }
            if o.step_label.is_some() {
                labelled = labelled + 1;
            }
            if o.exit_code != 0 {
                failed = failed + 1;
            }
            total = total + o.duration_ms;
            partial = partial || o.is_partial;
            i = i + 1;
        }
        assert(observations@.take(observations.len() as int) =~= observations@);
        BatternRecord {
            battern_id,
            total_steps,
            labelled_steps: labelled,
            failed_steps: failed,
            total_duration_ms: total,
            is_partial: partial,
            is_complete: !partial && total_steps >= MIN_COMPLETE_STEPS,
        }
    }
}

/// Every step of the batterns that reach `min_steps` is recorded exactly
/// once, so a pass never records more observations than there are steps.
pub proof fn lemma_observations_bounded(
    t: Seq<(Seq<char>, BatternStepLabel)>,
    cfg: BatternStepRecordConfig,
    steps: Seq<AtuinStep>,
    recorded_at_ms: i64,
)
    ensures
        observation_model(t, cfg, steps, recorded_at_ms).len() <= steps.len(),
{
    let bs = all_batterns(t, cfg, steps);
    lemma_batterns_partition(
        sorted_times(steps),
        sorted_labels(t, steps),
        timeout_ns(cfg),
        steps.len(),
    );
    lemma_observations_upto_bounded(t, cfg, steps, recorded_at_ms, bs, bs.len());
}

proof fn lemma_observations_upto_bounded(
    t: Seq<(Seq<char>, BatternStepLabel)>,
    cfg: BatternStepRecordConfig,
    steps: Seq<AtuinStep>,
    recorded_at_ms: i64,
    bs: Seq<(int, int)>,
    m: nat,
)
    requires
        m <= bs.len(),
        forall|i: int| 0 <= i < bs.len() ==> 0 <= #[trigger] bs[i].0 < bs[i].1,
        bs.len() > 0 ==> bs[0].0 == 0,
        forall|i: int| 0 <= i < bs.len() - 1 ==> #[trigger] bs[i].1 == bs[i + 1].0,
    ensures
        m > 0 ==> observations_upto(t, cfg, steps, recorded_at_ms, bs, m).len() <= bs[m - 1].1,
        m == 0 ==> observations_upto(t, cfg, steps, recorded_at_ms, bs, m).len() == 0,
    decreases m,
{
    if m > 0 {
        lemma_observations_upto_bounded(t, cfg, steps, recorded_at_ms, bs, (m - 1) as nat);
        if m > 1 {
            assert(bs[m - 2].1 == bs[m - 1].0);
        }
    }
}

proof fn lemma_upto_partial(
    t: Seq<(Seq<char>, BatternStepLabel)>,
    cfg: BatternStepRecordConfig,
    steps: Seq<AtuinStep>,
    recorded_at_ms: i64,
    bs: Seq<(int, int)>,
    m: nat,
)
    requires
        m <= bs.len(),
    ensures
        m < bs.len() ==> forall|i: int|
            0 <= i < observations_upto(t, cfg, steps, recorded_at_ms, bs, m).len()
                ==> !(#[trigger] observations_upto(t, cfg, steps, recorded_at_ms, bs, m)[i]).is_partial,
        forall|i: int, j: int|
            #![trigger observations_upto(t, cfg, steps, recorded_at_ms, bs, m)[i], observations_upto(t, cfg, steps, recorded_at_ms, bs, m)[j]]
            0 <= i < j < observations_upto(t, cfg, steps, recorded_at_ms, bs, m).len()
                && observations_upto(t, cfg, steps, recorded_at_ms, bs, m)[j].step_index == 0
                ==> !observations_upto(t, cfg, steps, recorded_at_ms, bs, m)[i].is_partial,
    decreases m,
{
    if m > 0 {
        lemma_upto_partial(t, cfg, steps, recorded_at_ms, bs, (m - 1) as nat);
        let p = observations_upto(t, cfg, steps, recorded_at_ms, bs, (m - 1) as nat);
        let out = observations_upto(t, cfg, steps, recorded_at_ms, bs, m);
        if bs[m - 1].1 - bs[m - 1].0 >= cfg.min_steps {
            let b = battern_observations(t, cfg, steps, recorded_at_ms, bs, m - 1);
            assert(out == p + b);
            assert forall|i: int| 0 <= i < out.len() && m < bs.len() implies !(
            #[trigger] out[i]).is_partial by {
                if i < p.len() {
                    assert(out[i] == p[i]);
                } else {
                    assert(out[i] == b[i - p.len()]);
                }
            }
            assert forall|i: int, j: int|
                #![trigger out[i], out[j]]
                0 <= i < j < out.len() && out[j].step_index == 0 implies !out[i].is_partial by {
                if j < p.len() {
                    assert(out[i] == p[i]);
                    assert(out[j] == p[j]);
                } else if i < p.len() {
                    assert(out[i] == p[i]);
                    assert(!p[i].is_partial);
                } else {
                    assert(out[j] == b[j - p.len()]);
                    assert(b[j - p.len()].step_index == j - p.len());
                }
            }
        } else {
            assert(out == p);
        }
    }
}

/// Only the last battern of a pass can be partial: an observation that is
/// followed, later in the output, by the first step of another battern is
/// never partial.
pub proof fn lemma_only_last_battern_partial(
    t: Seq<(Seq<char>, BatternStepLabel)>,
    cfg: BatternStepRecordConfig,
    steps: Seq<AtuinStep>,
    recorded_at_ms: i64,
)
    ensures
        forall|i: int, j: int|
            #![trigger observation_model(t, cfg, steps, recorded_at_ms)[i], observation_model(t, cfg, steps, recorded_at_ms)[j]]
            0 <= i < j < observation_model(t, cfg, steps, recorded_at_ms).len()
                && observation_model(t, cfg, steps, recorded_at_ms)[j].step_index == 0
                ==> !observation_model(t, cfg, steps, recorded_at_ms)[i].is_partial,
{
    let bs = all_batterns(t, cfg, steps);
    lemma_upto_partial(t, cfg, steps, recorded_at_ms, bs, bs.len());
}

/// Every recorded observation has a non-negative duration, carries the
/// recording time, and an id of the form `battern_` plus 16 lowercase hex
/// digits; its label is exactly the first matching heuristic of its
/// command, or `None`.
pub proof fn lemma_observation_fields(
    t: Seq<(Seq<char>, BatternStepLabel)>,
    cfg: BatternStepRecordConfig,
    steps: Seq<AtuinStep>,
    recorded_at_ms: i64,
    bs: Seq<(int, int)>,
    bi: int,
    j: int,
)
    ensures
        step_observation(t, cfg, steps, recorded_at_ms, bs, bi, j).duration_ms >= 0,
        step_observation(t, cfg, steps, recorded_at_ms, bs, bi, j).recorded_at_ms
            == recorded_at_ms,
        step_observation(t, cfg, steps, recorded_at_ms, bs, bi, j).battern_id.len() == 24,
        step_observation(t, cfg, steps, recorded_at_ms, bs, bi, j).battern_id.subrange(0, 8)
            == "battern_"@,
        crate::text::is_lower_hex(
            step_observation(t, cfg, steps, recorded_at_ms, bs, bi, j).battern_id.subrange(8, 24),
        ),
{
    let o = step_observation(t, cfg, steps, recorded_at_ms, bs, bi, j);
    let sts = sorted_times(steps);
    let h = fnv1a_spec(vstd::utf8::encode_utf8(dec_int(sts[bs[bi].0] as int))) as nat;
    crate::text::lemma_hex_fixed_shape(h, 16);
    reveal_strlit("battern_");
    assert(o.battern_id.subrange(0, 8) =~= "battern_"@);
    assert(o.battern_id.subrange(8, 24) =~= hex_fixed(h, 16, false));
    let b = bs[bi];
    let k = b.0 + j;
    let next = if k + 1 < b.1 {
        sts[k + 1]
    } else {
        sts[k]
    };
    let el = sat_i64(next - sts[k]);
    if el > 0 {
        assert(el / 1_000_000 <= el) by (nonlinear_arith)
            requires
                el > 0,
        ;
    }
}

} // verus!
