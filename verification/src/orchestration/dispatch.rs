//! `wf-dispatch` command-line parsing, the Security verifier of the
//! dispatch gate, and report rendering.
use vstd::prelude::*;
use crate::text::{
    dec_digits,
    pad_left,
    parse_usize,
    parse_usize_spec,
    push_dec_digits,
    push_dec_padded,
    push_str,
    starts_with_char,
    str_eq,
    strings_view,
};
use crate::m32_dispatcher::{EscapeSurfaceProfile, profile_name, profile_ordinal};
use crate::m33_verifier::{VerifierKind, VerifierVerdict};
use crate::json::{
    json_as_str, json_get, json_is_null, json_member, json_null, json_parse, json_parse_of,
    json_render, json_string, json_text,
};
use super::{ArgErrorView, stray_argument};

verus! {

/// Default proposals JSONL input path.
pub const DEFAULT_PROPOSALS_IN: &'static str = "./proposals.jsonl";

/// Default number of workflows to select.
pub const DEFAULT_TOP_K: usize = 5;

/// Default HABITAT-CONDUCTOR base URL.
pub const DEFAULT_CONDUCTOR_URL: &'static str = "http://127.0.0.1:8141";

/// HABITAT-CONDUCTOR dispatch path appended to the base URL.
pub const CONDUCTOR_DISPATCH_PATH: &'static str = "/dispatch";

/// Parsed `wf-dispatch` options.
#[derive(Debug, Clone, PartialEq, Eq)]
pub struct Config {
    /// proposals JSONL input path.
    pub proposals_in: String,
    /// number of workflows to select.
    pub top_k: usize,
    /// HABITAT-CONDUCTOR base URL.
    pub conductor_url: String,
    /// when `true`, verify + select but never contact the Conductor.
    pub dry_run: bool,
    /// the escape-surface ceiling the operator acknowledges.
    pub ack_ceiling: EscapeSurfaceProfile,
    /// `--help` requested.
    pub show_help: bool,
    /// `--version` requested.
    pub show_version: bool,
}

/// The mathematical content of a [`Config`].
pub struct ConfigView {
    pub proposals_in: Seq<char>,
    pub top_k: usize,
    pub conductor_url: Seq<char>,
    pub dry_run: bool,
    pub ack_ceiling: EscapeSurfaceProfile,
    pub show_help: bool,
    pub show_version: bool,
}

impl View for Config {
    type V = ConfigView;

    open spec fn view(&self) -> ConfigView {
        ConfigView {
            proposals_in: self.proposals_in@,
            top_k: self.top_k,
            conductor_url: self.conductor_url@,
            dry_run: self.dry_run,
            ack_ceiling: self.ack_ceiling,
            show_help: self.show_help,
            show_version: self.show_version,
        }
    }
}

/// The default options: dry run, top 5, the local Conductor, and the
/// least destructive ceiling.
pub open spec fn default_config() -> ConfigView {
    ConfigView {
        proposals_in: DEFAULT_PROPOSALS_IN@,
        top_k: DEFAULT_TOP_K,
        conductor_url: DEFAULT_CONDUCTOR_URL@,
        dry_run: true,
        ack_ceiling: EscapeSurfaceProfile::Sandboxed,
        show_help: false,
        show_version: false,
    }
}

impl Default for Config {
    /// Dry run is the default-safe mode; the ceiling defaults to
    /// `Sandboxed`.
    fn default() -> (c: Self)
        ensures
            c@ == default_config(),
    {
        Config {
            proposals_in: String::from_str(DEFAULT_PROPOSALS_IN),
            top_k: DEFAULT_TOP_K,
            conductor_url: String::from_str(DEFAULT_CONDUCTOR_URL),
            dry_run: true,
            ack_ceiling: EscapeSurfaceProfile::Sandboxed,
            show_help: false,
            show_version: false,
        }
    }
}

/// Command-line parsing failure.
#[derive(Debug, PartialEq, Eq)]
#[non_exhaustive]
pub enum ArgError {
    /// An unrecognised flag was supplied.
    UnknownFlag(String),
    /// A flag that requires a value was given none.
    MissingValue(&'static str),
    /// A flag value could not be parsed.
    BadValue {
        /// The offending flag.
        flag: &'static str,
        /// The raw value supplied.
        value: String,
    },
    /// A positional argument was supplied (none are accepted).
    UnexpectedPositional(String),
}

impl View for ArgError {
    type V = ArgErrorView;

    open spec fn view(&self) -> ArgErrorView {
        match self {
            ArgError::UnknownFlag(s) => ArgErrorView::UnknownFlag(s@),
            ArgError::MissingValue(f) => ArgErrorView::MissingValue(f@),
            ArgError::BadValue { flag, value } => ArgErrorView::BadValue(flag@, value@),
            ArgError::UnexpectedPositional(s) => ArgErrorView::UnexpectedPositional(s@),
        }
    }
}

/// The profile named by an `--ack-ceiling` value.
pub open spec fn ceiling_named(raw: Seq<char>) -> Option<EscapeSurfaceProfile> {
    if raw == "sandboxed"@ {
        Some(EscapeSurfaceProfile::Sandboxed)
    } else if raw == "sandbox-escape"@ {
        Some(EscapeSurfaceProfile::SandboxEscape)
    } else if raw == "process-mutate"@ {
        Some(EscapeSurfaceProfile::ProcessMutate)
    } else if raw == "privilege-escalation"@ {
        Some(EscapeSurfaceProfile::PrivilegeEscalation)
    } else if raw == "file-write"@ {
        Some(EscapeSurfaceProfile::FileWrite)
    } else if raw == "network-egress"@ {
        Some(EscapeSurfaceProfile::NetworkEgress)
    } else if raw == "data-exfil"@ {
        Some(EscapeSurfaceProfile::DataExfil)
    } else {
        None
    }
}

/// Map an `--ack-ceiling` value to a profile.
pub fn parse_ack_ceiling(raw: &str) -> (r: Result<EscapeSurfaceProfile, ArgError>)
    ensures
        r matches Ok(p) ==> ceiling_named(raw@) == Some(p),
        r matches Err(e) ==> ceiling_named(raw@) is None && e@ == ArgErrorView::BadValue(
            "--ack-ceiling"@,
            raw@,
        ),
{
    if str_eq(raw, "sandboxed") {
        Ok(EscapeSurfaceProfile::Sandboxed)
    } else if str_eq(raw, "sandbox-escape") {
        Ok(EscapeSurfaceProfile::SandboxEscape)
    } else if str_eq(raw, "process-mutate") {
        Ok(EscapeSurfaceProfile::ProcessMutate)
    } else if str_eq(raw, "privilege-escalation") {
        Ok(EscapeSurfaceProfile::PrivilegeEscalation)
    } else if str_eq(raw, "file-write") {
        Ok(EscapeSurfaceProfile::FileWrite)
    } else if str_eq(raw, "network-egress") {
        Ok(EscapeSurfaceProfile::NetworkEgress)
    } else if str_eq(raw, "data-exfil") {
        Ok(EscapeSurfaceProfile::DataExfil)
    } else {
        Err(ArgError::BadValue { flag: "--ack-ceiling", value: String::from_str(raw) })
    }
}

/// `a` is a flag that takes a value.
pub open spec fn takes_value(a: Seq<char>) -> bool {
    a == "--proposals-in"@ || a == "--top-k"@ || a == "--conductor-url"@ || a
        == "--ack-ceiling"@
}

/// The options set by the value `v` of the value-bearing flag `flag`.
pub open spec fn apply_value(flag: Seq<char>, v: Seq<char>, c: ConfigView) -> Result<
    ConfigView,
    ArgErrorView,
> {
    if flag == "--proposals-in"@ {
        Ok(ConfigView { proposals_in: v, ..c })
    } else if flag == "--top-k"@ {
        match parse_usize_spec(v) {
            Some(n) => Ok(ConfigView { top_k: n, ..c }),
            None => Err(ArgErrorView::BadValue(flag, v)),
        }
    } else if flag == "--conductor-url"@ {
        Ok(ConfigView { conductor_url: v, ..c })
    } else {
        match ceiling_named(v) {
            Some(p) => Ok(ConfigView { ack_ceiling: p, ..c }),
            None => Err(ArgErrorView::BadValue(flag, v)),
        }
    }
}

/// The options after reading `args[i..]` on top of `c`, or the first
/// failure; flags are read left to right and later ones override earlier
/// ones (`--execute` and `--dry-run` included).
pub open spec fn parse_from(args: Seq<Seq<char>>, i: int, c: ConfigView) -> Result<
    ConfigView,
    ArgErrorView,
>
    decreases args.len() - i,
{
    if i < 0 || i >= args.len() {
        Ok(c)
    } else {
        let a = args[i];
        if a == "--help"@ || a == "-h"@ {
            parse_from(args, i + 1, ConfigView { show_help: true, ..c })
        } else if a == "--version"@ || a == "-V"@ {
            parse_from(args, i + 1, ConfigView { show_version: true, ..c })
        } else if a == "--dry-run"@ {
            parse_from(args, i + 1, ConfigView { dry_run: true, ..c })
        } else if a == "--execute"@ {
            parse_from(args, i + 1, ConfigView { dry_run: false, ..c })
        } else if takes_value(a) {
            if i + 1 >= args.len() {
                Err(ArgErrorView::MissingValue(a))
            } else {
                match apply_value(a, args[i + 1], c) {
                    Ok(c2) => parse_from(args, i + 2, c2),
                    Err(e) => Err(e),
                }
            }
        } else {
            Err(stray_argument(a))
        }
    }
}

/// The flag literal equal to `a`, when `a` takes a value.
fn value_flag(a: &str) -> (r: Option<&'static str>)
    ensures
        r matches Some(f) ==> f@ == a@ && takes_value(a@),
        r is None ==> !takes_value(a@),
{
    if str_eq(a, "--proposals-in") {
        Some("--proposals-in")
    } else if str_eq(a, "--top-k") {
        Some("--top-k")
    } else if str_eq(a, "--conductor-url") {
        Some("--conductor-url")
    } else if str_eq(a, "--ack-ceiling") {
        Some("--ack-ceiling")
    } else {
        None
    }
}

/// Parse `wf-dispatch` arguments (excluding `argv[0]`) on top of the
/// defaults.
pub fn parse_args(args: &[String]) -> (r: Result<Config, ArgError>)
    ensures
        match r {
            Ok(c) => parse_from(strings_view(args@), 0, default_config()) == Ok::<
                ConfigView,
                ArgErrorView,
            >(c@),
            Err(e) => parse_from(strings_view(args@), 0, default_config()) == Err::<
                ConfigView,
                ArgErrorView,
            >(e@),
        },
{
    let ghost av = strings_view(args@);
    let mut config = Config::default();
    let mut i: usize = 0;
    while i < args.len()
        invariant
            i <= args.len(),
            av == strings_view(args@),
            parse_from(av, 0, default_config()) == parse_from(av, i as int, config@),
        decreases args.len() - i,
    {
        let a = args[i].as_str();
        assert(av[i as int] == a@);
        if str_eq(a, "--help") || str_eq(a, "-h") {
            config.show_help = true;
            i = i + 1;
        } else if str_eq(a, "--version") || str_eq(a, "-V") {
            config.show_version = true;
            i = i + 1;
        } else if str_eq(a, "--dry-run") {
            config.dry_run = true;
            i = i + 1;
        } else if str_eq(a, "--execute") {
            config.dry_run = false;
            i = i + 1;
        } else {
            match value_flag(a) {
                Some(flag) => {
                    if i + 1 >= args.len() {
                        return Err(ArgError::MissingValue(flag));
                    }
                    let v = args[i + 1].as_str();
                    assert(av[i + 1] == v@);
                    if str_eq(flag, "--proposals-in") {
                        config.proposals_in = String::from_str(v);
                    } else if str_eq(flag, "--top-k") {
                        match parse_usize(v) {
                            Some(n) => {
                                config.top_k = n;
                            },
                            None => {
                                return Err(
                                    ArgError::BadValue { flag, value: String::from_str(v) },
                                );
                            },
                        }
                    } else if str_eq(flag, "--conductor-url") {
                        config.conductor_url = String::from_str(v);
                    } else {
                        match parse_ack_ceiling(v) {
                            Ok(p) => {
                                config.ack_ceiling = p;
                            },
                            Err(e) => {
                                return Err(e);
                            },
                        }
                    }
                    i = i + 2;
                },
                None => {
                    if starts_with_char(a, '-') {
                        return Err(ArgError::UnknownFlag(String::from_str(a)));
                    }
                    return Err(ArgError::UnexpectedPositional(String::from_str(a)));
                },
            }
        }
    }
    Ok(config)
}

/// The reason a Security refusal carries.
pub open spec fn refusal_reason(surface: EscapeSurfaceProfile, ceiling: EscapeSurfaceProfile) -> Seq<
    char,
> {
    "workflow escape surface "@ + profile_name(surface) + " (ord "@ + dec_digits(
        profile_ordinal(surface) as nat,
    ) + ") exceeds acknowledged ceiling "@ + profile_name(ceiling) + " (ord "@ + dec_digits(
        profile_ordinal(ceiling) as nat,
    ) + "); m33 Security hard-Refuse per D5"@
}

/// The Security verdict for a workflow whose escape surface is
/// `workflow_surface` under the acknowledged ceiling: approve when the
/// surface is at or below the ceiling, refuse otherwise.
pub fn security_verdict(
    workflow_surface: EscapeSurfaceProfile,
    ack_ceiling: EscapeSurfaceProfile,
) -> (v: VerifierVerdict)
    ensures
        (v is Approve) == (profile_ordinal(workflow_surface) <= profile_ordinal(ack_ceiling)),
        v matches VerifierVerdict::Refuse { reason } ==> reason@ == refusal_reason(
            workflow_surface,
            ack_ceiling,
        ),
        !(v is Amend),
{
    if workflow_surface.ordinal() <= ack_ceiling.ordinal() {
        VerifierVerdict::Approve
    } else {
        let mut reason = String::new();
        push_str(&mut reason, "workflow escape surface ");
        push_str(&mut reason, workflow_surface.name());
        push_str(&mut reason, " (ord ");
        push_dec_digits(&mut reason, workflow_surface.ordinal() as u64);
        push_str(&mut reason, ") exceeds acknowledged ceiling ");
        push_str(&mut reason, ack_ceiling.name());
        push_str(&mut reason, " (ord ");
        push_dec_digits(&mut reason, ack_ceiling.ordinal() as u64);
        push_str(&mut reason, "); m33 Security hard-Refuse per D5");
        assert(reason@ =~= refusal_reason(workflow_surface, ack_ceiling));
        VerifierVerdict::Refuse { reason }
    }
}

/// The Security verifier of the dispatch gate, configured against the
/// operator's acknowledged ceiling.
#[derive(Debug, Clone, Copy)]
pub struct SecurityVerifier {
    ack_ceiling: EscapeSurfaceProfile,
}

impl SecurityVerifier {
    /// The ceiling this verifier checks against.
    pub closed spec fn ceiling(&self) -> EscapeSurfaceProfile {
        self.ack_ceiling
    }

    /// Construct against an acknowledged ceiling.
    pub fn new(ack_ceiling: EscapeSurfaceProfile) -> (v: Self)
        ensures
            v.ceiling() == ack_ceiling,
    {
        SecurityVerifier { ack_ceiling }
    }

    /// The ceiling this verifier was constructed with.
    pub fn ack_ceiling(&self) -> (p: EscapeSurfaceProfile)
        ensures
            p == self.ceiling(),
    {
        self.ack_ceiling
    }

    /// The verifier kind: `Security`.
    pub fn kind(&self) -> (k: VerifierKind)
        ensures
            k == VerifierKind::Security,
    {
        VerifierKind::Security
    }

    /// The escape surface assumed for every workflow: `Sandboxed`, the
    /// least destructive, so no reasonable ceiling is falsely refused.
    pub fn workflow_escape_surface() -> (p: EscapeSurfaceProfile)
        ensures
            p == EscapeSurfaceProfile::Sandboxed,
    {
        EscapeSurfaceProfile::Sandboxed
    }
}

/// The Security gate and the dispatcher's acknowledgement check agree: a
/// workflow surface is approved under a ceiling exactly when a signature
/// acknowledging that ceiling acknowledges the surface, and the assumed
/// `Sandboxed` surface is approved under every ceiling.
pub proof fn lemma_security_gate_matches_acknowledgement(
    surface: EscapeSurfaceProfile,
    ceiling: EscapeSurfaceProfile,
)
    ensures
        (profile_ordinal(surface) <= profile_ordinal(ceiling)) == (profile_ordinal(surface)
            <= profile_ordinal(crate::m32_dispatcher::HumanAcceptanceSignature {
            interactive_terminal: true,
            acknowledged_ceiling: ceiling,
        }.acknowledged_ceiling)),
        profile_ordinal(EscapeSurfaceProfile::Sandboxed) <= profile_ordinal(ceiling),
{
}

/// One selected workflow's verify + dispatch outcome.
#[derive(Debug, Clone, PartialEq, Eq)]
#[non_exhaustive]
pub struct CandidateOutcome {
    /// The bank workflow id.
    pub workflow_id: u64,
    /// `true` once the four-verifier gate approved this workflow.
    pub verifier_approved: bool,
    /// One of: `dry-run`, `dispatched`, `refused`, `verifier-blocked`.
    pub disposition: String,
}

impl CandidateOutcome {
    /// The outcome of one candidate.
    pub fn new(workflow_id: u64, verifier_approved: bool, disposition: String) -> (c: Self)
        ensures
            c.workflow_id == workflow_id,
            c.verifier_approved == verifier_approved,
            c.disposition@ == disposition@,
    {
        CandidateOutcome { workflow_id, verifier_approved, disposition }
    }
}

/// Outcome of a `wf-dispatch` run.
#[derive(Debug, Clone, PartialEq, Eq)]
#[non_exhaustive]
pub struct Report {
    /// proposals parsed from the JSONL input.
    pub proposals_loaded: usize,
    /// proposals accepted into the bank.
    pub bank_accepted: usize,
    /// top-K candidates selected.
    pub candidates_selected: usize,
    /// candidates whose verifier gate approved.
    pub verifier_approved: usize,
    /// candidates actually dispatched to the Conductor (always 0 in dry run).
    pub dispatched: usize,
    /// `true` when the run executed in dry-run mode.
    pub dry_run: bool,
    /// per-candidate dispositions.
    pub candidates: Vec<CandidateOutcome>,
    /// `true` once the pipeline reached the end without aborting.
    pub completed: bool,
}

/// One report line: `label`, the value, and a newline.
pub open spec fn report_line(label: Seq<char>, value: Seq<char>) -> Seq<char> {
    label + value + "\n"@
}

/// The per-candidate lines of a report.
pub open spec fn candidate_lines(cs: Seq<CandidateOutcome>) -> Seq<char>
    decreases cs.len(),
{
    if cs.len() == 0 {
        Seq::empty()
    } else {
        candidate_lines(cs.drop_last()) + "    workflow "@ + pad_left(
            dec_digits(cs.last().workflow_id as nat),
            20,
        ) + " : "@ + cs.last().disposition@ + "\n"@
    }
}

/// The text rendering of a report.
pub open spec fn report_text(r: Report) -> Seq<char> {
    "wf-dispatch \u{2014} pipeline report\n"@ + report_line(
        "  mode                       : "@,
        if r.dry_run {
            "dry-run"@
        } else {
            "execute"@
        },
    ) + report_line("  proposals loaded           : "@, dec_digits(r.proposals_loaded as nat))
        + report_line("  bank accepted              : "@, dec_digits(r.bank_accepted as nat))
        + report_line(
        "  candidates selected        : "@,
        dec_digits(r.candidates_selected as nat),
    ) + report_line("  verifier approved          : "@, dec_digits(r.verifier_approved as nat))
        + report_line("  dispatched                 : "@, dec_digits(r.dispatched as nat))
        + candidate_lines(r.candidates@) + "  completed                  : "@ + if r.completed {
        "yes"@
    } else {
        "no"@
    }
}

/// A text holds `line` as a whole line: it occurs right after a newline.
pub open spec fn holds_line(text: Seq<char>, line: Seq<char>) -> bool {
    exists|p: int|
        1 <= p && p + line.len() <= text.len() && text[p - 1] == '\n' && #[trigger] text.subrange(
            p,
            p + line.len(),
        ) == line
}

proof fn lemma_holds_line_in(a: Seq<char>, line: Seq<char>, b: Seq<char>)
    requires
        a.len() >= 1,
        a.last() == '\n',
    ensures
        holds_line(a + line + b, line),
{
    let t = a + line + b;
    let p = a.len() as int;
    assert(t[p - 1] == a.last());
    assert(t.subrange(p, p + line.len()) =~= line);
}

/// The rendered report states each count on its own line, read from that
/// count's own field: the dispatched line shows `dispatched` (so a dry run,
/// which dispatches nothing, shows 0 whatever was approved), and the
/// approved line shows `verifier_approved`.
pub proof fn lemma_report_count_lines(r: Report)
    ensures
        holds_line(
            report_text(r),
            "  dispatched                 : "@ + dec_digits(r.dispatched as nat) + "\n"@,
        ),
        holds_line(
            report_text(r),
            "  verifier approved          : "@ + dec_digits(r.verifier_approved as nat) + "\n"@,
        ),
        holds_line(
            report_text(r),
            "  candidates selected        : "@ + dec_digits(r.candidates_selected as nat) + "\n"@,
        ),
{
    reveal_strlit("\n");
    let head = "wf-dispatch \u{2014} pipeline report\n"@ + report_line(
        "  mode                       : "@,
        if r.dry_run {
            "dry-run"@
        } else {
            "execute"@
        },
    ) + report_line("  proposals loaded           : "@, dec_digits(r.proposals_loaded as nat))
        + report_line("  bank accepted              : "@, dec_digits(r.bank_accepted as nat));
    let sel = report_line("  candidates selected        : "@, dec_digits(r.candidates_selected as nat));
    let app = report_line("  verifier approved          : "@, dec_digits(r.verifier_approved as nat));
    let dis = report_line("  dispatched                 : "@, dec_digits(r.dispatched as nat));
    let tail = candidate_lines(r.candidates@) + "  completed                  : "@ + if r.completed {
        "yes"@
    } else {
        "no"@
    };
    assert(report_text(r) =~= head + sel + app + dis + tail);
    assert(head.last() == '\n');
    assert(sel.last() == '\n');
    assert(app.last() == '\n');
    assert((head + sel + app + dis + tail) =~= (head + sel + app) + dis + tail);
    lemma_holds_line_in(head + sel + app, dis, tail);
    assert((head + sel + app + dis + tail) =~= (head + sel) + app + (dis + tail));
    lemma_holds_line_in(head + sel, app, dis + tail);
    assert((head + sel + app + dis + tail) =~= head + sel + (app + dis + tail));
    lemma_holds_line_in(head, sel, app + dis + tail);
    assert(dis =~= "  dispatched                 : "@ + dec_digits(r.dispatched as nat) + "\n"@);
    assert(app =~= "  verifier approved          : "@ + dec_digits(r.verifier_approved as nat) + "\n"@);
    assert(sel =~= "  candidates selected        : "@ + dec_digits(r.candidates_selected as nat) + "\n"@);
}

fn push_count_line(s: &mut String, label: &str, value: usize)
    ensures
        final(s)@ == old(s)@ + report_line(label@, dec_digits(value as nat)),
{
    push_str(s, label);
    push_dec_digits(s, value as u64);
    push_str(s, "\n");
    assert(final(s)@ =~= old(s)@ + report_line(label@, dec_digits(value as nat)));
}

impl Report {
    /// An empty report in the given mode: all counts zero, no candidates,
    /// not completed.
    pub fn empty(dry_run: bool) -> (r: Self)
        ensures
            r.proposals_loaded == 0 && r.bank_accepted == 0 && r.candidates_selected == 0,
            r.verifier_approved == 0 && r.dispatched == 0,
            r.dry_run == dry_run,
            r.candidates@.len() == 0,
            !r.completed,
    {
        Report {
            proposals_loaded: 0,
            bank_accepted: 0,
            candidates_selected: 0,
            verifier_approved: 0,
            dispatched: 0,
            dry_run,
            candidates: Vec::new(),
            completed: false,
        }
    }

    /// The human-readable multi-line rendering.
    #[verifier::rlimit(40)]
    #[verifier::spinoff_prover]
    pub fn render(&self) -> (s: String)
        ensures
            s@ == report_text(*self),
    {
        let mut s = String::new();
        push_str(&mut s, "wf-dispatch \u{2014} pipeline report\n");
        push_str(&mut s, "  mode                       : ");
        if self.dry_run {
            push_str(&mut s, "dry-run");
        } else {
            push_str(&mut s, "execute");
        }
        push_str(&mut s, "\n");
        push_count_line(&mut s, "  proposals loaded           : ", self.proposals_loaded);
        push_count_line(&mut s, "  bank accepted              : ", self.bank_accepted);
        push_count_line(&mut s, "  candidates selected        : ", self.candidates_selected);
        push_count_line(&mut s, "  verifier approved          : ", self.verifier_approved);
        push_count_line(&mut s, "  dispatched                 : ", self.dispatched);
        let ghost head = s@;
        let mut i: usize = 0;
        assert(self.candidates@.take(0) =~= Seq::<CandidateOutcome>::empty());
        while i < self.candidates.len()
            invariant
                i <= self.candidates.len(),
                s@ == head + candidate_lines(self.candidates@.take(i as int)),
            decreases self.candidates.len() - i,
        {
            let c = &self.candidates[i];
            let ghost before = s@;
            push_str(&mut s, "    workflow ");
            push_dec_padded(&mut s, c.workflow_id, 20);
            push_str(&mut s, " : ");
            push_str(&mut s, c.disposition.as_str());
            push_str(&mut s, "\n");
            proof {
                let t = self.candidates@.take(i + 1);
                assert(t.drop_last() =~= self.candidates@.take(i as int));
                assert(t.last() == *c);
                assert(s@ =~= head + candidate_lines(t));
            }
            i = i + 1;
        }
        assert(self.candidates@.take(self.candidates.len() as int) =~= self.candidates@);
        push_str(&mut s, "  completed                  : ");
        if self.completed {
            push_str(&mut s, "yes");
        } else {
            push_str(&mut s, "no");
        }
        assert(s@ =~= report_text(*self));
        s
    }
}

/// `s` without its trailing `c` characters.
pub open spec fn trim_end_char(s: Seq<char>, c: char) -> Seq<char>
    decreases s.len(),
{
    if s.len() > 0 && s.last() == c {
        trim_end_char(s.drop_last(), c)
    } else {
        s
    }
}

/// The Conductor client's settings: the dispatch endpoint and the timeout.
pub struct HttpConductorClient {
    endpoint: String,
    timeout: std::time::Duration,
}

impl HttpConductorClient {
    /// The dispatch endpoint.
    pub closed spec fn spec_endpoint(&self) -> Seq<char> {
        self.endpoint@
    }

    /// The per-request timeout.
    pub closed spec fn spec_timeout(&self) -> std::time::Duration {
        self.timeout
    }

    /// Construct against a Conductor base URL: the endpoint is the base
    /// without trailing slashes, followed by the dispatch path.
    pub fn new(base_url: &str, timeout: std::time::Duration) -> (c: Self)
        ensures
            c.spec_endpoint() == trim_end_char(base_url@, '/') + CONDUCTOR_DISPATCH_PATH@,
            c.spec_timeout() == timeout,
    {
        let cs = crate::lexical::chars_of(base_url);
        let mut n = cs.len();
        assert(cs@.take(n as int) =~= cs@);
        while n > 0 && cs[n - 1] == '/'
            invariant
                n <= cs.len(),
                cs@ == base_url@,
                trim_end_char(base_url@, '/') == trim_end_char(cs@.take(n as int), '/'),
            decreases n,
        {
            assert(cs@.take(n as int).drop_last() =~= cs@.take(n - 1));
            n = n - 1;
        }
        let mut endpoint = String::new();
        let mut i: usize = 0;
        while i < n
            invariant
                i <= n <= cs.len(),
                endpoint@ == cs@.take(i as int),
            decreases n - i,
        {
            crate::text::push_char(&mut endpoint, cs[i]);
            assert(cs@.take(i + 1) =~= cs@.take(i as int).push(cs@[i as int]));
            i = i + 1;
        }
        proof {
            assert(cs@.take(cs.len() as int) =~= cs@);
            assert(trim_end_char(cs@.take(n as int), '/') == cs@.take(n as int));
        }
        push_str(&mut endpoint, CONDUCTOR_DISPATCH_PATH);
        HttpConductorClient { endpoint, timeout }
    }

    /// The dispatch endpoint.
    pub fn endpoint(&self) -> (r: &str)
        ensures
            r@ == self.spec_endpoint(),
    {
        self.endpoint.as_str()
    }

    /// The timeout.
    pub fn timeout(&self) -> (r: std::time::Duration)
        ensures
            r == self.spec_timeout(),
    {
        self.timeout
    }
}

/// What happens to a selected candidate after the verifier gate.
#[derive(Debug, Clone, Copy, PartialEq, Eq)]
pub enum CandidateStep {
    /// Not approved by the verifier gate; nothing goes to the Conductor.
    Blocked,
    /// Approved in dry-run mode: the Conductor is not contacted.
    DryRun,
    /// Approved under `--execute`: the workflow is dispatched.
    Dispatch,
}

/// The step for a candidate: blocked unless approved; in dry-run mode an
/// approved candidate is never dispatched.
pub fn candidate_step(approved: bool, dry_run: bool) -> (s: CandidateStep)
    ensures
        s == (if !approved {
            CandidateStep::Blocked
        } else if dry_run {
            CandidateStep::DryRun
        } else {
            CandidateStep::Dispatch
        }),
{
    if !approved {
        CandidateStep::Blocked
    } else if dry_run {
        CandidateStep::DryRun
    } else {
        CandidateStep::Dispatch
    }
}

/// The disposition recorded for a candidate: `verifier-blocked` when not
/// approved, `dry-run` when not dispatched, `dispatched` when the Conductor
/// accepted it, `refused` when it refused or the call failed.
pub open spec fn disposition_text(approved: bool, accepted: Option<bool>) -> Seq<char> {
    if !approved {
        "verifier-blocked"@
    } else {
        match accepted {
            None => "dry-run"@,
            Some(true) => "dispatched"@,
            Some(false) => "refused"@,
        }
    }
}

/// Record one candidate in the report: `accepted` is whether the
/// Conductor accepted its dispatch, and is present exactly when it was
/// dispatched (approved, not in dry-run mode). The candidate's outcome is
/// appended, an approval is counted, and an accepted dispatch is counted;
/// nothing else changes.
pub fn record_candidate(report: &mut Report, workflow_id: u64, approved: bool, accepted: Option<bool>)
    requires
        (accepted is Some) == (approved && !old(report).dry_run),
        approved ==> old(report).verifier_approved < usize::MAX,
        accepted == Some(true) ==> old(report).dispatched < usize::MAX,
    ensures
        final(report).candidates@.len() == old(report).candidates@.len() + 1,
        final(report).candidates@.drop_last() == old(report).candidates@,
        final(report).candidates@.last().workflow_id == workflow_id,
        final(report).candidates@.last().verifier_approved == approved,
        final(report).candidates@.last().disposition@ == disposition_text(approved, accepted),
        final(report).verifier_approved == old(report).verifier_approved + (if approved {
            1int
        } else {
            0int
        }),
        final(report).dispatched == old(report).dispatched + (if accepted == Some(true) {
            1int
        } else {
            0int
        }),
        final(report).proposals_loaded == old(report).proposals_loaded,
        final(report).bank_accepted == old(report).bank_accepted,
        final(report).candidates_selected == old(report).candidates_selected,
        final(report).dry_run == old(report).dry_run,
        final(report).completed == old(report).completed,
{
    if approved {
        report.verifier_approved = report.verifier_approved + 1;
    }
    let disposition = match candidate_step(approved, report.dry_run) {
        CandidateStep::Blocked => String::from_str("verifier-blocked"),
        CandidateStep::DryRun => String::from_str("dry-run"),
        CandidateStep::Dispatch => match accepted {
            Some(true) => {
                report.dispatched = report.dispatched + 1;
                String::from_str("dispatched")
            },
            _ => String::from_str("refused"),
        },
    };
    let ghost before = report.candidates@;
    report.candidates.push(CandidateOutcome::new(workflow_id, approved, disposition));
    assert(report.candidates@.drop_last() =~= before);
}

/// The dispatch id the Conductor's reply names: its `dispatch_id` member
/// when present (a string or not), else its `id` member.
pub open spec fn named_dispatch_id(
    dispatch_id: Option<Option<Seq<char>>>,
    id: Option<Option<Seq<char>>>,
) -> Option<Seq<char>> {
    match dispatch_id {
        Some(d) => d,
        None => match id {
            Some(i) => i,
            None => None,
        },
    }
}

/// The text of an optional string.
pub open spec fn opt_text(s: Option<String>) -> Option<Seq<char>> {
    match s {
        Some(x) => Some(x@),
        None => None,
    }
}

/// The text of an optional member read as an optional string.
pub open spec fn member_text(s: Option<Option<String>>) -> Option<Option<Seq<char>>> {
    match s {
        Some(d) => Some(opt_text(d)),
        None => None,
    }
}

/// The texts of a `Result` of strings.
pub open spec fn text_result(r: Result<String, String>) -> Result<Seq<char>, Seq<char>> {
    match r {
        Ok(x) => Ok(x@),
        Err(m) => Err(m@),
    }
}

/// What a Conductor reply means: a non-2xx status is refused naming the
/// status; a 2xx reply carrying an `error` (given as its text) is a
/// rejection; otherwise the named dispatch id is the accepted id, and its
/// absence is a fault.
pub open spec fn conductor_outcome(
    success: bool,
    status: u16,
    error: Option<Seq<char>>,
    dispatch_id: Option<Option<Seq<char>>>,
    id: Option<Option<Seq<char>>>,
) -> Result<Seq<char>, Seq<char>> {
    if !success {
        Err("conductor returned HTTP "@ + dec_digits(status as nat))
    } else {
        match error {
            Some(e) => Err("conductor rejected dispatch: "@ + e),
            None => match named_dispatch_id(dispatch_id, id) {
                Some(x) => Ok(x),
                None => Err("conductor response missing dispatch id"@),
            },
        }
    }
}

/// Decide a Conductor reply from the facts read off it (see
/// `conductor_outcome`): `error` is the text of the reply's `error` when it
/// carries one. Each refusal carries its wire-format message.
pub fn conductor_reply(
    success: bool,
    status: u16,
    error: Option<String>,
    dispatch_id: Option<Option<String>>,
    id: Option<Option<String>>,
) -> (r: Result<String, String>)
    ensures
        text_result(r) == conductor_outcome(
            success,
            status,
            opt_text(error),
            member_text(dispatch_id),
            member_text(id),
        ),
{
    if !success {
        let mut m = String::from_str("conductor returned HTTP ");
        push_dec_digits(&mut m, status as u64);
        return Err(m);
    }
    match error {
        Some(e) => {
            let mut m = String::from_str("conductor rejected dispatch: ");
            push_str(&mut m, e.as_str());
            return Err(m);
        },
        None => {},
    }
    let chosen = match dispatch_id {
        Some(d) => d,
        None => match id {
            Some(i) => i,
            None => None,
        },
    };
    match chosen {
        Some(x) => Ok(x),
        None => Err(String::from_str("conductor response missing dispatch id")),
    }
}

/// The member `key` of a parsed reply read as a string: `None` without the
/// member, else the member as a string if it is one.
pub open spec fn reply_member_text(v: serde_json::Value, key: Seq<char>) -> Option<
    Option<Seq<char>>,
> {
    match json_get(v, key) {
        Some(m) => Some(json_as_str(m)),
        None => None,
    }
}

/// The `error` a parsed reply carries: its `error` member when present
/// and not `null`, as the string it holds or else as its JSON text.
pub open spec fn reply_error_text(v: serde_json::Value) -> Option<Seq<char>> {
    match json_get(v, "error"@) {
        Some(e) => if json_null(e) {
            None
        } else {
            match json_as_str(e) {
                Some(t) => Some(t),
                None => Some(json_render(e)),
            }
        },
        None => None,
    }
}

/// Read a string member of a parsed reply.
fn member_string(v: &serde_json::Value, key: &str) -> (r: Option<Option<String>>)
    ensures
        member_text(r) == reply_member_text(*v, key@),
{
    match json_member(v, key) {
        Some(m) => Some(json_string(m)),
        None => None,
    }
}

/// Decide a Conductor reply from its status and raw body: a non-2xx status
/// is refused naming the status; a body that is not JSON is refused with
/// `conductor body: ` and the parser's message; otherwise the reply is
/// decided on its `error` member (any value but `null` rejects) and its
/// `dispatch_id` / `id` members, as `conductor_reply` does.
pub fn conductor_reply_from_body(success: bool, status: u16, body: &str) -> (r: Result<
    String,
    String,
>)
    ensures
        !success ==> text_result(r) == conductor_outcome(false, status, None, None, None),
        success && json_parse_of(body@) is None ==> (r matches Err(m) && m@.len() >= 16
            && m@.subrange(0, 16) == "conductor body: "@),
        success && json_parse_of(body@) is Some ==> text_result(r) == conductor_outcome(
            true,
            status,
            reply_error_text(json_parse_of(body@)->0),
            reply_member_text(json_parse_of(body@)->0, "dispatch_id"@),
            reply_member_text(json_parse_of(body@)->0, "id"@),
        ),
{
    if !success {
        return conductor_reply(false, status, None, None, None);
    }
    match json_parse(body) {
        Err(e) => {
            let mut m = String::from_str("conductor body: ");
            let ghost head = m@;
            push_str(&mut m, e.as_str());
            proof {
                reveal_strlit("conductor body: ");
                assert(m@.subrange(0, head.len() as int) =~= head);
            }
            Err(m)
        },
        Ok(v) => {
            let error = match json_member(&v, "error") {
                Some(e) => if json_is_null(e) {
                    None
                } else {
                    match json_string(e) {
                        Some(t) => Some(t),
                        None => Some(json_text(e)),
                    }
                },
                None => None,
            };
            let dispatch_id = member_string(&v, "dispatch_id");
            let id = member_string(&v, "id");
            conductor_reply(true, status, error, dispatch_id, id)
        },
    }
}

} // verus!
