//! `lcm.loop.create` JSON-RPC client: the endpoint, the typed failures,
//! the request-id stream, and the result envelope.
use vstd::prelude::*;
use std::sync::atomic::AtomicU64;
use std::time::Duration;
use crate::text::{dec_digits, dec_int, push_dec_digits, push_dec_i64, push_str};
use crate::json::{
    json_as_i64, json_as_str, json_as_u64, json_clone, json_get, json_i64, json_is_obj,
    json_is_object, json_member, json_render, json_string, json_text, json_u64,
};

verus! {

/// Default LCM RPC endpoint.
pub const DEFAULT_LCM_URL: &'static str = "http://127.0.0.1:8082/rpc";

/// The RPC method.
pub const RPC_METHOD: &'static str = "lcm.loop.create";

/// Default request timeout, in seconds.
pub const DEFAULT_RPC_TIMEOUT_SECS: u64 = 10;

/// Hard cap on the bytes read from an RPC response (1 MiB).
pub const MAX_RESPONSE_BYTES: u64 = 1024 * 1024;

/// `lcm.loop.create` result.
#[derive(Debug, Clone, PartialEq)]
pub struct LcmLoopCreateResult {
    /// LCM-assigned loop id.
    pub loop_id: String,
    /// LCM accept timestamp (ms).
    pub created_at_ms: i64,
}

/// RPC failures.
#[derive(Debug)]
pub enum LcmRpcError {
    /// Transport / HTTP failure.
    Transport(String),
    /// LCM returned a JSON-RPC error.
    Rpc {
        /// JSON-RPC error code.
        code: i64,
        /// JSON-RPC error message.
        message: String,
    },
    /// Response parse failure.
    Parse(String),
    /// The response `id` did not echo the request `id`.
    IdMismatch {
        /// The request id that was sent.
        sent: u64,
        /// The `id` that came back, as raw JSON.
        received: serde_json::Value,
    },
}

/// The operator-facing text of an RPC failure; an id mismatch names the id
/// sent and the id received, as JSON text.
pub open spec fn rpc_error_text(e: LcmRpcError) -> Seq<char> {
    match e {
        LcmRpcError::Transport(r) => "transport: "@ + r@,
        LcmRpcError::Rpc { code, message } => "rpc error "@ + dec_int(code as int) + ": "@
            + message@,
        LcmRpcError::Parse(r) => "parse: "@ + r@,
        LcmRpcError::IdMismatch { sent, received } => "id mismatch: sent="@ + dec_digits(
            sent as nat,
        ) + ", received="@ + json_render(received),
    }
}

impl LcmRpcError {
    /// The operator-facing message; an id mismatch names the id sent and
    /// then the id received, rendered as JSON.
    pub fn message(&self) -> (s: String)
        ensures
            s@ == rpc_error_text(*self),
    {
        match self {
            LcmRpcError::Transport(r) => {
                let mut s = String::from_str("transport: ");
                push_str(&mut s, r.as_str());
                s
            },
            LcmRpcError::Rpc { code, message } => {
                let mut s = String::from_str("rpc error ");
                push_dec_i64(&mut s, *code);
                push_str(&mut s, ": ");
                push_str(&mut s, message.as_str());
                s
            },
            LcmRpcError::Parse(r) => {
                let mut s = String::from_str("parse: ");
                push_str(&mut s, r.as_str());
                s
            },
            LcmRpcError::IdMismatch { sent, received } => {
                let mut s = String::from_str("id mismatch: sent=");
                push_dec_digits(&mut s, *sent);
                push_str(&mut s, ", received=");
                let r = json_text(received);
                push_str(&mut s, r.as_str());
                s
            },
        }
    }
}

/// Production JSON-RPC client: endpoint, timeout, and a per-client
/// request-id stream.
pub struct HttpLcmClient {
    url: String,
    timeout: Duration,
    next_id: AtomicU64,
}

impl HttpLcmClient {
    /// The endpoint this client posts to.
    pub closed spec fn spec_url(&self) -> Seq<char> {
        self.url@
    }

    /// The timeout this client was built with.
    pub closed spec fn spec_timeout(&self) -> Duration {
        self.timeout
    }

    /// Construct; the request-id stream starts at 1.
    pub fn new(url: &str, timeout: Duration) -> (c: Self)
        ensures
            c.spec_url() == url@,
            c.spec_timeout() == timeout,
    {
        HttpLcmClient { url: String::from_str(url), timeout, next_id: AtomicU64::new(1) }
    }

    /// The endpoint.
    pub fn url(&self) -> (r: &str)
        ensures
            r@ == self.spec_url(),
    {
        self.url.as_str()
    }

    /// The timeout.
    pub fn timeout(&self) -> (r: Duration)
        ensures
            r == self.spec_timeout(),
    {
        self.timeout
    }

    /// Allocate the next request id from this client's stream (lock-free;
    /// the value is the stream's current counter, which then advances by
    /// one). What the counter holds is shared state and is not stated.
    pub fn allocate_request_id(&self) -> u64 {
        self.next_id.fetch_add(1, std::sync::atomic::Ordering::Relaxed)
    }
}

/// What a JSON-RPC error member holds, read off the response.
pub struct RpcErrorFacts {
    /// The member is a JSON object with a `code` member.
    pub has_code: bool,
    /// `code` as an `i64`, when it is one.
    pub code: Option<i64>,
    /// `message` as a string, when it is one.
    pub message: Option<String>,
}

/// The verdict on a JSON-RPC response envelope.
#[derive(Debug)]
pub enum EnvelopeVerdict {
    /// No `id` member.
    MissingId,
    /// The `id` does not echo the request id.
    IdMismatch,
    /// An error object with a code.
    RpcError {
        /// The code, `-32000` when it is not an integer.
        code: i64,
        /// The message, `unknown` when it is not a string.
        message: String,
    },
    /// No `result` member.
    MissingResult,
    /// The `result` member is to be decoded.
    Decode,
}

/// The verdict on an envelope: first the id must be present and echo the
/// request id, then an error object with a code is an RPC error, then a
/// result must be present.
pub open spec fn envelope_verdict_spec(
    expected_id: u64,
    id: Option<Option<u64>>,
    error: Option<(bool, Option<i64>, Option<Seq<char>>)>,
    has_result: bool,
) -> (int, i64, Seq<char>) {
    match id {
        None => (0, 0, Seq::empty()),
        Some(n) => if n != Some(expected_id) {
            (1, 0, Seq::empty())
        } else {
            match error {
                Some((has_code, code, message)) if has_code => (
                    2,
                    match code {
                        Some(c) => c,
                        None => -32000i64,
                    },
                    match message {
                        Some(m) => m,
                        None => "unknown"@,
                    },
                ),
                _ => if !has_result {
                    (3, 0, Seq::empty())
                } else {
                    (4, 0, Seq::empty())
                },
            }
        },
    }
}

/// The shape of a verdict, as the spec numbers it.
pub open spec fn verdict_shape(v: EnvelopeVerdict) -> (int, i64, Seq<char>) {
    match v {
        EnvelopeVerdict::MissingId => (0, 0, Seq::empty()),
        EnvelopeVerdict::IdMismatch => (1, 0, Seq::empty()),
        EnvelopeVerdict::RpcError { code, message } => (2, code, message@),
        EnvelopeVerdict::MissingResult => (3, 0, Seq::empty()),
        EnvelopeVerdict::Decode => (4, 0, Seq::empty()),
    }
}

/// Decide an envelope from the facts read off it: `id` is `None` without
/// an `id` member, else the member as a `u64` if it is one; `error` is
/// `None` without an `error` member.
pub fn envelope_verdict(
    expected_id: u64,
    id: Option<Option<u64>>,
    error: Option<RpcErrorFacts>,
    has_result: bool,
) -> (v: EnvelopeVerdict)
    ensures
        verdict_shape(v) == envelope_verdict_spec(
            expected_id,
            id,
            match error {
                Some(f) => Some(
                    (
                        f.has_code,
                        f.code,
                        match f.message {
                            Some(m) => Some(m@),
                            None => None,
                        },
                    ),
                ),
                None => None,
            },
            has_result,
        ),
{
    match id {
        None => EnvelopeVerdict::MissingId,
        Some(n) => {
            let echoed = match n {
                Some(k) => k == expected_id,
                None => false,
            };
            if !echoed {
                return EnvelopeVerdict::IdMismatch;
            }
            match error {
                Some(f) => {
                    if f.has_code {
                        let code = match f.code {
                            Some(c) => c,
                            None => -32000i64,
                        };
                        let message = match f.message {
                            Some(m) => m,
                            None => String::from_str("unknown"),
                        };
                        return EnvelopeVerdict::RpcError { code, message };
                    }
                },
                None => {},
            }
            if !has_result {
                EnvelopeVerdict::MissingResult
            } else {
                EnvelopeVerdict::Decode
            }
        },
    }
}

/// The `id` fact of a response: `None` without an `id` member, else the
/// member as a `u64` if it is one.
pub open spec fn rpc_id_fact(v: serde_json::Value) -> Option<Option<u64>> {
    match json_get(v, "id"@) {
        Some(i) => Some(json_as_u64(i)),
        None => None,
    }
}

/// The `error` facts of a response: `None` without an `error` member, else
/// whether it is an object with a `code`, the code as an `i64`, and the
/// message as a string.
pub open spec fn rpc_error_fact(v: serde_json::Value) -> Option<
    (bool, Option<i64>, Option<Seq<char>>),
> {
    match json_get(v, "error"@) {
        Some(e) => Some(
            (
                json_is_obj(e) && json_get(e, "code"@) is Some,
                match json_get(e, "code"@) {
                    Some(c) => json_as_i64(c),
                    None => None,
                },
                match json_get(e, "message"@) {
                    Some(m) => json_as_str(m),
                    None => None,
                },
            ),
        ),
        None => None,
    }
}

/// The verdict on a response envelope against the request id.
pub open spec fn rpc_envelope(v: serde_json::Value, expected_id: u64) -> (int, i64, Seq<char>) {
    envelope_verdict_spec(
        expected_id,
        rpc_id_fact(v),
        rpc_error_fact(v),
        json_get(v, "result"@) is Some,
    )
}

/// Check a JSON-RPC response envelope against the request id: the `id`
/// must be present and echo `expected_id`, an `error` object with a `code`
/// is an RPC error, and the `result` member is handed back to be decoded.
/// A mismatch carries the id sent and the `id` member received; an RPC
/// error carries its code (`-32000` when not an integer) and message
/// (`unknown` when not a string).
pub fn check_rpc_envelope<'a>(value: &'a serde_json::Value, expected_id: u64) -> (r: Result<
    &'a serde_json::Value,
    LcmRpcError,
>)
    ensures
        rpc_envelope(*value, expected_id).0 == 0 ==> (r matches Err(LcmRpcError::Parse(m)) && m@
            == "response missing id"@),
        rpc_envelope(*value, expected_id).0 == 1 ==> (r matches Err(
            LcmRpcError::IdMismatch { sent, received },
        ) && sent == expected_id && json_get(*value, "id"@) == Some(received)),
        rpc_envelope(*value, expected_id).0 == 2 ==> (r matches Err(
            LcmRpcError::Rpc { code, message },
        ) && code == rpc_envelope(*value, expected_id).1 && message@ == rpc_envelope(
            *value,
            expected_id,
        ).2),
        rpc_envelope(*value, expected_id).0 == 3 ==> (r matches Err(LcmRpcError::Parse(m)) && m@
            == "missing result"@),
        rpc_envelope(*value, expected_id).0 == 4 ==> (r matches Ok(res) && json_get(
            *value,
            "result"@,
        ) == Some(*res)),
{
    let id_member = json_member(value, "id");
    let id = match id_member {
        Some(m) => Some(json_u64(m)),
        None => None,
    };
    let error = match json_member(value, "error") {
        Some(e) => {
            let has_code = json_is_object(e) && json_member(e, "code").is_some();
            let code = match json_member(e, "code") {
                Some(c) => json_i64(c),
                None => None,
            };
            let message = match json_member(e, "message") {
                Some(m) => json_string(m),
                None => None,
            };
            Some(RpcErrorFacts { has_code, code, message })
        },
        None => None,
    };
    let result = json_member(value, "result");
    match envelope_verdict(expected_id, id, error, result.is_some()) {
        EnvelopeVerdict::MissingId => Err(LcmRpcError::Parse(String::from_str("response missing id"))),
        EnvelopeVerdict::IdMismatch => match id_member {
            Some(m) => Err(LcmRpcError::IdMismatch { sent: expected_id, received: json_clone(m) }),
            None => Err(LcmRpcError::Parse(String::from_str("response missing id"))),
        },
        EnvelopeVerdict::RpcError { code, message } => Err(LcmRpcError::Rpc { code, message }),
        EnvelopeVerdict::MissingResult => Err(LcmRpcError::Parse(String::from_str("missing result"))),
        EnvelopeVerdict::Decode => match result {
            Some(r) => Ok(r),
            None => Err(LcmRpcError::Parse(String::from_str("missing result"))),
        },
    }
}

} // verus!
