//! `wf-crystallise` command-line parsing and report rendering.
use vstd::prelude::*;
use crate::text::{
    dec_digits,
    dec_int,
    join_with,
    parse_usize,
    parse_usize_spec,
    push_dec_digits,
    push_dec_i64,
    push_joined,
    push_str,
    starts_with_char,
    str_eq,
    strings_view,
};
use super::{ArgErrorView, stray_argument};

verus! {

/// Default proposals JSONL output path.
pub const DEFAULT_PROPOSALS_OUT: &'static str = "./proposals.jsonl";

/// Default workflow-runs SQLite path (created if absent).
pub const DEFAULT_RUNS_DB: &'static str = "./workflow_runs.db";

/// Default minimum support for the sequence miner.
pub const DEFAULT_MIN_SUPPORT: usize = 3;

/// Default maximum gap for the sequence miner.
pub const DEFAULT_MAX_GAP: usize = 5;

/// Maximum mined pattern length handed to the sequence miner.
pub const DEFAULT_MAX_PATTERN_LENGTH: usize = 8;

/// Report rendering format selected via `--format`.
#[derive(Debug, Clone, Copy, PartialEq, Eq)]
pub enum ReportFormat {
    /// Human-readable multi-line text.
    Text,
    /// Single-line JSON object.
    Json,
}

/// The format named by a `--format` value.
pub open spec fn format_named(raw: Seq<char>) -> Option<ReportFormat> {
    if raw == "text"@ {
        Some(ReportFormat::Text)
    } else if raw == "json"@ {
        Some(ReportFormat::Json)
    } else {
        None
    }
}

/// Parsed `wf-crystallise` options.
#[derive(Debug, Clone, PartialEq, Eq)]
pub struct Config {
    /// atuin history SQLite path.
    pub atuin_db: String,
    /// habitat injection.db SQLite path.
    pub injection_db: String,
    /// workflow-runs SQLite path (created if absent).
    pub runs_db: String,
    /// proposals JSONL output path.
    pub proposals_out: String,
    /// Sequence-miner minimum support.
    pub min_support: usize,
    /// Sequence-miner maximum gap.
    pub max_gap: usize,
    /// Skip all live-service stages when `true`.
    pub offline: bool,
    /// Report rendering format.
    pub format: ReportFormat,
    /// `--help` requested.
    pub show_help: bool,
    /// `--version` requested.
    pub show_version: bool,
}

/// The mathematical content of a [`Config`].
pub struct ConfigView {
    pub atuin_db: Seq<char>,
    pub injection_db: Seq<char>,
    pub runs_db: Seq<char>,
    pub proposals_out: Seq<char>,
    pub min_support: usize,
    pub max_gap: usize,
    pub offline: bool,
    pub format: ReportFormat,
    pub show_help: bool,
    pub show_version: bool,
}

impl View for Config {
    type V = ConfigView;

    open spec fn view(&self) -> ConfigView {
        ConfigView {
            atuin_db: self.atuin_db@,
            injection_db: self.injection_db@,
            runs_db: self.runs_db@,
            proposals_out: self.proposals_out@,
            min_support: self.min_support,
            max_gap: self.max_gap,
            offline: self.offline,
            format: self.format,
            show_help: self.show_help,
            show_version: self.show_version,
        }
    }
}

/// The default options for a user whose home directory is `home`.
pub open spec fn default_config(home: Seq<char>) -> ConfigView {
    ConfigView {
        atuin_db: home + "/.local/share/atuin/history.db"@,
        injection_db: home + "/.local/share/habitat/injection.db"@,
        runs_db: DEFAULT_RUNS_DB@,
        proposals_out: DEFAULT_PROPOSALS_OUT@,
        min_support: DEFAULT_MIN_SUPPORT,
        max_gap: DEFAULT_MAX_GAP,
        offline: false,
        format: ReportFormat::Text,
        show_help: false,
        show_version: false,
    }
}

impl Config {
    /// The default options for a user whose home directory is `home`: the
    /// atuin and injection databases under `home`, the runs database and
    /// proposals output in the working directory, online, text output.
    pub fn for_home(home: &str) -> (c: Self)
        ensures
            c@ == default_config(home@),
    {
        let mut atuin_db = String::new();
        push_str(&mut atuin_db, home);
        push_str(&mut atuin_db, "/.local/share/atuin/history.db");
        let mut injection_db = String::new();
        push_str(&mut injection_db, home);
        push_str(&mut injection_db, "/.local/share/habitat/injection.db");
        Config {
            atuin_db,
            injection_db,
            runs_db: String::from_str(DEFAULT_RUNS_DB),
            proposals_out: String::from_str(DEFAULT_PROPOSALS_OUT),
            min_support: DEFAULT_MIN_SUPPORT,
            max_gap: DEFAULT_MAX_GAP,
            offline: false,
            format: ReportFormat::Text,
            show_help: false,
            show_version: false,
        }
    }
}

/// Command-line parsing failure.
#[derive(Debug, PartialEq, Eq)]
#[non_exhaustive]
pub enum ArgError {
    /// An unrecognised flag was supplied.
    UnknownFlag(String),
    /// A flag that requires a value was given none.
    MissingValue(&'static str),
    /// A flag value could not be parsed.
    BadValue {
        /// The offending flag.
        flag: &'static str,
        /// The raw value supplied.
        value: String,
    },
    /// A positional argument was supplied (none are accepted).
    UnexpectedPositional(String),
}

impl View for ArgError {
    type V = ArgErrorView;

    open spec fn view(&self) -> ArgErrorView {
        match self {
            ArgError::UnknownFlag(s) => ArgErrorView::UnknownFlag(s@),
            ArgError::MissingValue(f) => ArgErrorView::MissingValue(f@),
            ArgError::BadValue { flag, value } => ArgErrorView::BadValue(flag@, value@),
            ArgError::UnexpectedPositional(s) => ArgErrorView::UnexpectedPositional(s@),
        }
    }
}

impl ReportFormat {
    /// Parse a `--format` value: `text` or `json`.
    pub fn parse(raw: &str) -> (r: Result<ReportFormat, ArgError>)
        ensures
            r matches Ok(f) ==> format_named(raw@) == Some(f),
            r matches Err(e) ==> format_named(raw@) is None && e@ == ArgErrorView::BadValue(
                "--format"@,
                raw@,
            ),
    {
        if str_eq(raw, "text") {
            Ok(ReportFormat::Text)
        } else if str_eq(raw, "json") {
            Ok(ReportFormat::Json)
        } else {
            Err(ArgError::BadValue { flag: "--format", value: String::from_str(raw) })
        }
    }
}

/// The options set by the value `v` of the value-bearing flag `flag`.
pub open spec fn apply_value(flag: Seq<char>, v: Seq<char>, c: ConfigView) -> Result<
    ConfigView,
    ArgErrorView,
> {
    if flag == "--atuin-db"@ {
        Ok(ConfigView { atuin_db: v, ..c })
    } else if flag == "--injection-db"@ {
        Ok(ConfigView { injection_db: v, ..c })
    } else if flag == "--runs-db"@ {
        Ok(ConfigView { runs_db: v, ..c })
    } else if flag == "--proposals-out"@ {
        Ok(ConfigView { proposals_out: v, ..c })
    } else if flag == "--min-support"@ {
        match parse_usize_spec(v) {
            Some(n) => Ok(ConfigView { min_support: n, ..c }),
            None => Err(ArgErrorView::BadValue(flag, v)),
        }
    } else if flag == "--max-gap"@ {
        match parse_usize_spec(v) {
            Some(n) => Ok(ConfigView { max_gap: n, ..c }),
            None => Err(ArgErrorView::BadValue(flag, v)),
        }
    } else {
        match format_named(v) {
            Some(f) => Ok(ConfigView { format: f, ..c }),
            None => Err(ArgErrorView::BadValue(flag, v)),
        }
    }
}

/// `a` is a flag that takes a value.
pub open spec fn takes_value(a: Seq<char>) -> bool {
    a == "--atuin-db"@ || a == "--injection-db"@ || a == "--runs-db"@ || a == "--proposals-out"@
        || a == "--min-support"@ || a == "--max-gap"@ || a == "--format"@
}

/// The options after reading `args[i..]` on top of `c`, or the first
/// failure: flags are read left to right, a value-bearing flag consumes
/// the next argument, and later flags override earlier ones.
pub open spec fn parse_from(args: Seq<Seq<char>>, i: int, c: ConfigView) -> Result<
    ConfigView,
    ArgErrorView,
>
    decreases args.len() - i,
{
    if i < 0 || i >= args.len() {
        Ok(c)
    } else {
        let a = args[i];
        if a == "--help"@ || a == "-h"@ {
            parse_from(args, i + 1, ConfigView { show_help: true, ..c })
        } else if a == "--version"@ || a == "-V"@ {
            parse_from(args, i + 1, ConfigView { show_version: true, ..c })
        } else if a == "--offline"@ {
            parse_from(args, i + 1, ConfigView { offline: true, ..c })
        } else if takes_value(a) {
            if i + 1 >= args.len() {
                Err(ArgErrorView::MissingValue(a))
            } else {
                match apply_value(a, args[i + 1], c) {
                    Ok(c2) => parse_from(args, i + 2, c2),
                    Err(e) => Err(e),
                }
            }
        } else {
            Err(stray_argument(a))
        }
    }
}

/// The flag literal equal to `a`, when `a` takes a value.
fn value_flag(a: &str) -> (r: Option<&'static str>)
    ensures
        r matches Some(f) ==> f@ == a@ && takes_value(a@),
        r is None ==> !takes_value(a@),
{
    if str_eq(a, "--atuin-db") {
        Some("--atuin-db")
    } else if str_eq(a, "--injection-db") {
        Some("--injection-db")
    } else if str_eq(a, "--runs-db") {
        Some("--runs-db")
    } else if str_eq(a, "--proposals-out") {
        Some("--proposals-out")
    } else if str_eq(a, "--min-support") {
        Some("--min-support")
    } else if str_eq(a, "--max-gap") {
        Some("--max-gap")
    } else if str_eq(a, "--format") {
        Some("--format")
    } else {
        None
    }
}

/// Parse `wf-crystallise` arguments (excluding `argv[0]`) on top of the
/// defaults for home directory `home`.
pub fn parse_args(args: &[String], home: &str) -> (r: Result<Config, ArgError>)
    ensures
        match r {
            Ok(c) => parse_from(strings_view(args@), 0, default_config(home@)) == Ok::<
                ConfigView,
                ArgErrorView,
            >(c@),
            Err(e) => parse_from(strings_view(args@), 0, default_config(home@)) == Err::<
                ConfigView,
                ArgErrorView,
            >(e@),
        },
{
    let ghost av = strings_view(args@);
    let ghost start = default_config(home@);
    let mut config = Config::for_home(home);
    let mut i: usize = 0;
    while i < args.len()
        invariant
            i <= args.len(),
            av == strings_view(args@),
            start == default_config(home@),
            parse_from(av, 0, start) == parse_from(av, i as int, config@),
        decreases args.len() - i,
    {
        let a = args[i].as_str();
        assert(av[i as int] == a@);
        if str_eq(a, "--help") || str_eq(a, "-h") {
            config.show_help = true;
            i = i + 1;
        } else if str_eq(a, "--version") || str_eq(a, "-V") {
            config.show_version = true;
            i = i + 1;
        } else if str_eq(a, "--offline") {
            config.offline = true;
            i = i + 1;
        } else {
            match value_flag(a) {
                Some(flag) => {
                    if i + 1 >= args.len() {
                        let e = ArgError::MissingValue(flag);
                        assert(e@ == ArgErrorView::MissingValue(a@));
                        assert(parse_from(av, i as int, config@) == Err::<ConfigView, ArgErrorView>(
                            e@,
                        ));
                        return Err(e);
                    }
                    let v = args[i + 1].as_str();
                    assert(av[i + 1] == v@);
                    if str_eq(flag, "--atuin-db") {
                        config.atuin_db = String::from_str(v);
                    } else if str_eq(flag, "--injection-db") {
                        config.injection_db = String::from_str(v);
                    } else if str_eq(flag, "--runs-db") {
                        config.runs_db = String::from_str(v);
                    } else if str_eq(flag, "--proposals-out") {
                        config.proposals_out = String::from_str(v);
                    } else if str_eq(flag, "--min-support") {
                        match parse_usize(v) {
                            Some(n) => {
                                config.min_support = n;
                            },
                            None => {
                                return Err(
                                    ArgError::BadValue { flag, value: String::from_str(v) },
                                );
                            },
                        }
                    } else if str_eq(flag, "--max-gap") {
                        match parse_usize(v) {
                            Some(n) => {
                                config.max_gap = n;
                            },
                            None => {
                                return Err(
                                    ArgError::BadValue { flag, value: String::from_str(v) },
                                );
                            },
                        }
                    } else {
                        match ReportFormat::parse(v) {
                            Ok(f) => {
                                config.format = f;
                            },
                            Err(e) => {
                                return Err(e);
                            },
                        }
                    }
                    i = i + 2;
                },
                None => {
                    if starts_with_char(a, '-') {
                        return Err(ArgError::UnknownFlag(String::from_str(a)));
                    }
                    return Err(ArgError::UnexpectedPositional(String::from_str(a)));
                },
            }
        }
    }
    Ok(config)
}

/// Outcome of a `wf-crystallise` run.
#[derive(Debug, Clone, PartialEq, Eq)]
#[non_exhaustive]
pub struct Report {
    /// atuin history rows ingested.
    pub atuin_rows: usize,
    /// injection.db unresolved chains read.
    pub injection_chains: usize,
    /// cascade clusters correlated.
    pub cascade_clusters: usize,
    /// id of the workflow run recorded.
    pub run_id: i64,
    /// observations merged onto the run row.
    pub observations_merged: usize,
    /// open runs the lift snapshot was computed over.
    pub lift_window_runs: usize,
    /// sequential patterns mined.
    pub patterns_mined: usize,
    /// proposals composed and written to the JSONL output.
    pub proposals_written: usize,
    /// stages skipped because `--offline` was set or a live service was down.
    pub stages_skipped: Vec<String>,
    /// `true` once the pipeline reached the end without aborting.
    pub completed: bool,
}

/// One report line: `label`, the value, and a newline.
pub open spec fn report_line(label: Seq<char>, value: Seq<char>) -> Seq<char> {
    label + value + "\n"@
}

/// The text rendering of a report.
pub open spec fn report_text(r: Report) -> Seq<char> {
    "wf-crystallise \u{2014} pipeline report\n"@ + report_line(
        "  atuin rows ingested        : "@,
        dec_digits(r.atuin_rows as nat),
    ) + report_line("  injection chains read      : "@, dec_digits(r.injection_chains as nat))
        + report_line("  cascade clusters           : "@, dec_digits(r.cascade_clusters as nat))
        + report_line("  workflow run id            : "@, dec_int(r.run_id as int)) + report_line(
        "  observations merged        : "@,
        dec_digits(r.observations_merged as nat),
    ) + report_line("  lift window runs           : "@, dec_digits(r.lift_window_runs as nat))
        + report_line("  patterns mined             : "@, dec_digits(r.patterns_mined as nat))
        + report_line("  proposals written          : "@, dec_digits(r.proposals_written as nat))
        + report_line(
        "  stages skipped             : "@,
        if r.stages_skipped@.len() == 0 {
            "none"@
        } else {
            join_with(strings_view(r.stages_skipped@), ", "@)
        },
    ) + "  completed                  : "@ + if r.completed {
        "yes"@
    } else {
        "no"@
    }
}

fn push_count_line(s: &mut String, label: &str, value: usize)
    ensures
        final(s)@ == old(s)@ + report_line(label@, dec_digits(value as nat)),
{
    push_str(s, label);
    push_dec_digits(s, value as u64);
    push_str(s, "\n");
    assert(final(s)@ =~= old(s)@ + report_line(label@, dec_digits(value as nat)));
}

/// A stage that needs a live service.
#[derive(Debug, Clone, Copy, PartialEq, Eq)]
pub enum LiveStage {
    /// Registration with the stcortex substrate.
    Stcortex,
    /// The SYNTHEX nexus completion event.
    NexusEmit,
}

/// The name a skipped live stage is recorded under.
pub open spec fn live_stage_name(stage: LiveStage) -> Seq<char> {
    match stage {
        LiveStage::Stcortex => "m2-stcortex"@,
        LiveStage::NexusEmit => "m40-nexus-emit"@,
    }
}

/// Record a live stage: `reached` is whether its service answered, and is
/// present exactly when the stage was attempted (not offline). A stage
/// skipped offline, or whose service was down, is appended to
/// `stages_skipped` under its name; nothing else changes.
pub fn record_live_stage(report: &mut Report, stage: LiveStage, offline: bool, reached: Option<bool>)
    requires
        (reached is None) == offline,
    ensures
        strings_view(final(report).stages_skipped@) == if reached != Some(true) {
            strings_view(old(report).stages_skipped@).push(live_stage_name(stage))
        } else {
            strings_view(old(report).stages_skipped@)
        },
        final(report).atuin_rows == old(report).atuin_rows,
        final(report).injection_chains == old(report).injection_chains,
        final(report).cascade_clusters == old(report).cascade_clusters,
        final(report).run_id == old(report).run_id,
        final(report).observations_merged == old(report).observations_merged,
        final(report).lift_window_runs == old(report).lift_window_runs,
        final(report).patterns_mined == old(report).patterns_mined,
        final(report).proposals_written == old(report).proposals_written,
        final(report).completed == old(report).completed,
{
    if reached != Some(true) {
        let name = match stage {
            LiveStage::Stcortex => String::from_str("m2-stcortex"),
            LiveStage::NexusEmit => String::from_str("m40-nexus-emit"),
        };
        let ghost before = report.stages_skipped@;
        report.stages_skipped.push(name);
        assert(strings_view(report.stages_skipped@) =~= strings_view(before).push(
            live_stage_name(stage),
        ));
    }
}

impl Report {
    /// An empty report: all counts zero, nothing skipped, not completed.
    pub fn empty() -> (r: Self)
        ensures
            r.atuin_rows == 0 && r.injection_chains == 0 && r.cascade_clusters == 0,
            r.run_id == 0 && r.observations_merged == 0 && r.lift_window_runs == 0,
            r.patterns_mined == 0 && r.proposals_written == 0,
            r.stages_skipped@.len() == 0,
            !r.completed,
    {
        Report {
            atuin_rows: 0,
            injection_chains: 0,
            cascade_clusters: 0,
            run_id: 0,
            observations_merged: 0,
            lift_window_runs: 0,
            patterns_mined: 0,
            proposals_written: 0,
            stages_skipped: Vec::new(),
            completed: false,
        }
    }

    /// The human-readable multi-line rendering.
    #[verifier::spinoff_prover]
    pub fn render(&self) -> (s: String)
        ensures
            s@ == report_text(*self),
    {
        let mut s = String::new();
        push_str(&mut s, "wf-crystallise \u{2014} pipeline report\n");
        push_count_line(&mut s, "  atuin rows ingested        : ", self.atuin_rows);
        push_count_line(&mut s, "  injection chains read      : ", self.injection_chains);
        push_count_line(&mut s, "  cascade clusters           : ", self.cascade_clusters);
        push_str(&mut s, "  workflow run id            : ");
        push_dec_i64(&mut s, self.run_id);
        push_str(&mut s, "\n");
        push_count_line(&mut s, "  observations merged        : ", self.observations_merged);
        push_count_line(&mut s, "  lift window runs           : ", self.lift_window_runs);
        push_count_line(&mut s, "  patterns mined             : ", self.patterns_mined);
        push_count_line(&mut s, "  proposals written          : ", self.proposals_written);
        push_str(&mut s, "  stages skipped             : ");
        if self.stages_skipped.len() == 0 {
            push_str(&mut s, "none");
        } else {
            push_joined(&mut s, &self.stages_skipped, ", ");
        }
        push_str(&mut s, "\n");
        push_str(&mut s, "  completed                  : ");
        if self.completed {
            push_str(&mut s, "yes");
        } else {
            push_str(&mut s, "no");
        }
        assert(s@ =~= report_text(*self));
        s
    }
}

} // verus!
