//! Workflow-run vocabulary: run and step outcomes, the observations merged
//! onto a run, and the store's failures.
use vstd::prelude::*;
use crate::text::{dec_digits, dec_int, push_dec_digits, push_dec_i64, push_str, str_eq};
use crate::display::sqlite_error_text;
use crate::json::{json_get, json_insert, json_is_obj, json_is_object, json_parse, json_parse_of, json_render, json_text};

verus! {

/// How a workflow run ended.
#[derive(Debug, Clone, Copy, PartialEq, Eq, Hash)]
pub enum Outcome {
    /// Succeeded (stored as `ok`).
    Success,
    /// Failed.
    Fail,
    /// Aborted.
    Abort,
    /// Not known.
    Unknown,
}

/// The stored text of an outcome.
pub open spec fn outcome_text(o: Outcome) -> Seq<char> {
    match o {
        Outcome::Success => "ok"@,
        Outcome::Fail => "fail"@,
        Outcome::Abort => "abort"@,
        Outcome::Unknown => "unknown"@,
    }
}

/// The outcome whose stored text is `s`, if any.
pub open spec fn outcome_named(s: Seq<char>) -> Option<Outcome> {
    if s == "ok"@ {
        Some(Outcome::Success)
    } else if s == "fail"@ {
        Some(Outcome::Fail)
    } else if s == "abort"@ {
        Some(Outcome::Abort)
    } else if s == "unknown"@ {
        Some(Outcome::Unknown)
    } else {
        None
    }
}

/// Failures of the workflow-run store.
#[derive(Debug)]
#[non_exhaustive]
pub enum WorkflowError {
    /// SQLite failure, as text.
    Sqlite(String),
    /// A schema migration step failed.
    Migration {
        /// The step that failed.
        step: u32,
        /// The SQLite failure.
        source: rusqlite::Error,
    },
    /// No row with this id.
    RowNotFound {
        /// The id looked up.
        id: i64,
    },
    /// An outcome text outside `ok|fail|abort|unknown`.
    InvalidOutcome(String),
    /// A JSON patch of the consumer inputs failed.
    JsonPatch(String),
    /// A connection could not be acquired.
    Connection(String),
}

/// The message of a store failure; for a failed migration, the text up to
/// the SQLite failure, whose own text follows.
pub open spec fn workflow_error_text(e: WorkflowError) -> Seq<char> {
    match e {
        WorkflowError::Sqlite(m) => "sqlite error: "@ + m@,
        WorkflowError::Migration { step, .. } => "schema migration failed at step "@ + dec_digits(
            step as nat,
        ) + ": "@,
        WorkflowError::RowNotFound { id } => "row "@ + dec_int(id as int) + " not found in workflow_runs"@,
        WorkflowError::InvalidOutcome(v) => "invalid outcome '"@ + v@
            + "' — must be one of ok|fail|abort|unknown"@,
        WorkflowError::JsonPatch(m) => "consumer_inputs JSON patch failed: "@ + m@,
        WorkflowError::Connection(m) => "connection acquisition failed: "@ + m@,
    }
}

impl WorkflowError {
    /// The human-readable message.
    pub fn message(&self) -> (s: String)
        ensures
            !(*self is Migration) ==> s@ == workflow_error_text(*self),
            *self is Migration ==> s@.len() >= workflow_error_text(*self).len() && s@.subrange(
                0,
                workflow_error_text(*self).len() as int,
            ) == workflow_error_text(*self),
    {
        match self {
            WorkflowError::Sqlite(m) => {
                let mut s = String::from_str("sqlite error: ");
                push_str(&mut s, m.as_str());
                s
            },
            WorkflowError::Migration { step, source } => {
                let mut s = String::from_str("schema migration failed at step ");
                push_dec_digits(&mut s, *step as u64);
                push_str(&mut s, ": ");
                let ghost head = s@;
                let inner = sqlite_error_text(source);
                push_str(&mut s, inner.as_str());
                assert(s@.subrange(0, head.len() as int) =~= head);
                s
            },
            WorkflowError::RowNotFound { id } => {
                let mut s = String::from_str("row ");
                push_dec_i64(&mut s, *id);
                push_str(&mut s, " not found in workflow_runs");
                s
            },
            WorkflowError::InvalidOutcome(v) => {
                let mut s = String::from_str("invalid outcome '");
                push_str(&mut s, v.as_str());
                push_str(&mut s, "' — must be one of ok|fail|abort|unknown");
                s
            },
            WorkflowError::JsonPatch(m) => {
                let mut s = String::from_str("consumer_inputs JSON patch failed: ");
                push_str(&mut s, m.as_str());
                s
            },
            WorkflowError::Connection(m) => {
                let mut s = String::from_str("connection acquisition failed: ");
                push_str(&mut s, m.as_str());
                s
            },
        }
    }
}

/// Whether the stored consumer-inputs text is a JSON object, as
/// `serde_json` parses it.
pub open spec fn consumer_inputs_object(existing: Seq<char>) -> bool {
    match json_parse_of(existing) {
        Some(v) => json_is_obj(v),
        None => false,
    }
}

/// Patch the stored consumer-inputs JSON text: parse it, set the member
/// `key` to `record`, and render the object again. Text that is not JSON
/// fails with `JsonPatch` and the parser's message; JSON that is not an
/// object fails with `JsonPatch("consumer_inputs not a JSON object")`.
/// The patched object has `record` at `key` and every other member as
/// before.
pub fn patch_consumer_inputs(existing: &str, key: &str, record: serde_json::Value) -> (r: Result<
    String,
    WorkflowError,
>)
    ensures
        r is Ok <==> consumer_inputs_object(existing@),
        r is Err ==> r matches Err(WorkflowError::JsonPatch(_)),
        json_parse_of(existing@) is Some && !consumer_inputs_object(existing@) ==> (r matches Err(
            WorkflowError::JsonPatch(m),
        ) && m@ == "consumer_inputs not a JSON object"@),
        r matches Ok(text) ==> exists|patched: serde_json::Value|
            #![trigger json_render(patched)]
            text@ == json_render(patched) && json_is_obj(patched) && json_get(patched, key@)
                == Some(record) && forall|k: Seq<char>|
                k != key@ ==> #[trigger] json_get(patched, k) == json_get(
                    json_parse_of(existing@)->0,
                    k,
                ),
{
    let mut v = match json_parse(existing) {
        Ok(v) => v,
        Err(e) => {
            return Err(WorkflowError::JsonPatch(e));
        },
    };
    if !json_is_object(&v) {
        return Err(WorkflowError::JsonPatch(String::from_str("consumer_inputs not a JSON object")));
    }
    let ghost before = v;
    json_insert(&mut v, key, record);
    let text = json_text(&v);
    assert(json_parse_of(existing@)->0 == before);
    Ok(text)
}

impl Outcome {
    /// The stored text.
    pub fn as_str(self) -> (s: &'static str)
        ensures
            s@ == outcome_text(self),
    {
        match self {
            Outcome::Success => "ok",
            Outcome::Fail => "fail",
            Outcome::Abort => "abort",
            Outcome::Unknown => "unknown",
        }
    }

    /// Parse a stored outcome text; any other text is `InvalidOutcome`
    /// carrying it.
    pub fn parse(value: &str) -> (r: Result<Outcome, WorkflowError>)
        ensures
            r matches Ok(o) ==> outcome_named(value@) == Some(o),
            r is Err ==> outcome_named(value@) is None && (r matches Err(
                WorkflowError::InvalidOutcome(v),
            ) && v@ == value@),
    {
        if str_eq(value, "ok") {
            Ok(Outcome::Success)
        } else if str_eq(value, "fail") {
            Ok(Outcome::Fail)
        } else if str_eq(value, "abort") {
            Ok(Outcome::Abort)
        } else if str_eq(value, "unknown") {
            Ok(Outcome::Unknown)
        } else {
            let mut v = String::new();
            push_str(&mut v, value);
            Err(WorkflowError::InvalidOutcome(v))
        }
    }
}

/// Parsing gives back every outcome's stored text.
pub proof fn lemma_outcome_round_trip(o: Outcome)
    ensures
        outcome_named(outcome_text(o)) == Some(o),
{
    reveal_strlit("ok");
    reveal_strlit("fail");
    reveal_strlit("abort");
    reveal_strlit("unknown");
    assert("ok"@.len() == 2 && "fail"@.len() == 4 && "abort"@.len() == 5 && "unknown"@.len() == 7);
    assert("fail"@ != "ok"@);
    assert("abort"@ != "ok"@ && "abort"@ != "fail"@);
    assert("unknown"@ != "ok"@ && "unknown"@ != "fail"@ && "unknown"@ != "abort"@);
}

/// How one step of a run ended.
#[derive(Debug, Clone, Copy, PartialEq, Eq, Hash)]
pub enum StepOutcome {
    /// Succeeded (stored as `ok`).
    Success,
    /// Failed.
    Fail,
    /// Skipped.
    Skipped,
}

impl StepOutcome {
    /// The stored text.
    pub fn as_str(self) -> (s: &'static str)
        ensures
            s@ == (match self {
                StepOutcome::Success => "ok"@,
                StepOutcome::Fail => "fail"@,
                StepOutcome::Skipped => "skipped"@,
            }),
    {
        match self {
            StepOutcome::Success => "ok",
            StepOutcome::Fail => "fail",
            StepOutcome::Skipped => "skipped",
        }
    }
}

/// An observation merged onto a workflow run.
#[derive(Debug)]
pub enum ClusterBObservation {
    /// A correlated cascade cluster.
    Cascade {
        /// Opaque cluster id.
        cluster_id: String,
        /// First and last step timestamps (ns).
        session_range: (i64, i64),
    },
    /// A Battern step.
    BatternStep {
        /// Opaque battern id.
        battern_id: String,
        /// Step position.
        step_index: u8,
        /// Step duration (ms).
        duration_ms: u64,
        /// Step outcome text.
        outcome: String,
    },
    /// A session's context cost.
    ContextCost {
        /// Session id.
        session_id: i64,
        /// Tokens spent.
        cost_tokens: u64,
    },
    /// An injection causal chain.
    InjectionChain {
        /// Chain id.
        chain_id: i64,
    },
}

/// The tag of an observation kind.
pub open spec fn observation_tag(o: ClusterBObservation) -> Seq<char> {
    match o {
        ClusterBObservation::Cascade { .. } => "cascade"@,
        ClusterBObservation::BatternStep { .. } => "battern_step"@,
        ClusterBObservation::ContextCost { .. } => "context_cost"@,
        ClusterBObservation::InjectionChain { .. } => "injection_chain"@,
    }
}

impl ClusterBObservation {
    /// The observation's kind tag.
    pub fn discriminant(&self) -> (s: &'static str)
        ensures
            s@ == observation_tag(*self),
    {
        match self {
            ClusterBObservation::Cascade { .. } => "cascade",
            ClusterBObservation::BatternStep { .. } => "battern_step",
            ClusterBObservation::ContextCost { .. } => "context_cost",
            ClusterBObservation::InjectionChain { .. } => "injection_chain",
        }
    }
}

} // verus!
