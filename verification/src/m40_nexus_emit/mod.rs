//! NexusEvent push to synthex-v2: the endpoint, the client's settings, the
//! typed failures, and the decision of what a response means.
use vstd::prelude::*;
use std::time::Duration;
use crate::text::{dec_digits, push_dec_digits, push_str};
use crate::json::{json_get, json_is_null, json_member, json_null, json_parse, json_parse_of};

verus! {

/// Default synthex-v2 NexusEvent endpoint.
pub const DEFAULT_NEXUS_URL: &'static str = "http://127.0.0.1:8092/v3/nexus/push";

/// Default push timeout, in seconds.
pub const DEFAULT_PUSH_TIMEOUT_SECS: u64 = 5;

/// Hard cap on the bytes read from a push response (1 MiB).
pub const MAX_RESPONSE_BYTES: u64 = 1024 * 1024;

/// Push failures.
#[derive(Debug)]
pub enum NexusEmitError {
    /// Transport / HTTP layer failure.
    Transport(String),
    /// Server returned a non-2xx status.
    NonSuccess(u16),
    /// Server returned 2xx but the body carries a non-null `error` field.
    ServerRejected {
        /// Raw response body that surfaced the rejection.
        body: String,
    },
}

/// The operator-facing text of a push failure.
pub open spec fn emit_error_text(e: NexusEmitError) -> Seq<char> {
    match e {
        NexusEmitError::Transport(r) => "transport: "@ + r@,
        NexusEmitError::NonSuccess(code) => "non-2xx status: "@ + dec_digits(code as nat),
        NexusEmitError::ServerRejected { body } => "server rejected (2xx body-shape): "@ + body@,
    }
}

impl NexusEmitError {
    /// The operator-facing message.
    pub fn message(&self) -> (s: String)
        ensures
            s@ == emit_error_text(*self),
    {
        match self {
            NexusEmitError::Transport(r) => {
                let mut s = String::from_str("transport: ");
                push_str(&mut s, r.as_str());
                s
            },
            NexusEmitError::NonSuccess(code) => {
                let mut s = String::from_str("non-2xx status: ");
                push_dec_digits(&mut s, *code as u64);
                s
            },
            NexusEmitError::ServerRejected { body } => {
                let mut s = String::from_str("server rejected (2xx body-shape): ");
                push_str(&mut s, body.as_str());
                s
            },
        }
    }
}

/// The HTTP client's settings: endpoint and timeout.
pub struct HttpNexusClient {
    url: String,
    timeout: Duration,
}

impl HttpNexusClient {
    /// The endpoint this client pushes to.
    pub closed spec fn spec_url(&self) -> Seq<char> {
        self.url@
    }

    /// The timeout this client was built with.
    pub closed spec fn spec_timeout(&self) -> Duration {
        self.timeout
    }

    /// Construct with explicit URL and timeout.
    pub fn new(url: &str, timeout: Duration) -> (c: Self)
        ensures
            c.spec_url() == url@,
            c.spec_timeout() == timeout,
    {
        HttpNexusClient { url: String::from_str(url), timeout }
    }

    /// The endpoint.
    pub fn url(&self) -> (r: &str)
        ensures
            r@ == self.spec_url(),
    {
        self.url.as_str()
    }

    /// The timeout.
    pub fn timeout(&self) -> (r: Duration)
        ensures
            r == self.spec_timeout(),
    {
        self.timeout
    }
}

/// Whether a 2xx push response body rejects the push: it is JSON (per
/// `serde_json`) with an `error` member that is not `null`. An empty body,
/// one that is not JSON, or one without such a member accepts.
pub open spec fn push_rejected(body: Seq<char>) -> bool {
    match json_parse_of(body) {
        Some(v) => match json_get(v, "error"@) {
            Some(e) => !json_null(e),
            None => false,
        },
        None => false,
    }
}

/// Decide a push response: a non-2xx status is `NonSuccess`, a 2xx body
/// whose JSON carries a non-null `error` member is `ServerRejected` with
/// the body, anything else is success.
pub fn classify_push_response(status: u16, success: bool, body: String) -> (r: Result<
    (),
    NexusEmitError,
>)
    ensures
        !success ==> (r matches Err(NexusEmitError::NonSuccess(c)) && c == status),
        success && body@.len() == 0 ==> r is Ok,
        success && body@.len() > 0 ==> (r is Ok == !push_rejected(body@)),
        success && body@.len() > 0 && r is Err ==> (r matches Err(
            NexusEmitError::ServerRejected { body: b },
        ) && b@ == body@),
{
    if !success {
        return Err(NexusEmitError::NonSuccess(status));
    }
    if body.as_str().unicode_len() == 0 {
        return Ok(());
    }
    let rejected = match json_parse(body.as_str()) {
        Ok(v) => match json_member(&v, "error") {
            Some(e) => !json_is_null(e),
            None => false,
        },
        Err(_) => false,
    };
    if rejected {
        Err(NexusEmitError::ServerRejected { body })
    } else {
        Ok(())
    }
}

/// The message of a size-cap breach.
pub open spec fn size_breach_text(content_length: Option<u64>) -> Seq<char> {
    match content_length {
        Some(n) => if n > MAX_RESPONSE_BYTES {
            "response Content-Length "@ + dec_digits(n as nat) + " exceeds 1048576-byte cap"@
        } else {
            "response stream exceeded 1048576-byte cap"@
        },
        None => "response stream exceeded 1048576-byte cap"@,
    }
}

/// Decide whether a response of advertised length `content_length` (if
/// any) or of `read_len` bytes read under the cap stays within
/// `MAX_RESPONSE_BYTES`; the error names the breach.
pub fn check_response_size(content_length: Option<u64>, read_len: u64) -> (r: Result<
    (),
    NexusEmitError,
>)
    ensures
        r is Ok == ((content_length matches Some(n) ==> n <= MAX_RESPONSE_BYTES) && read_len
            <= MAX_RESPONSE_BYTES),
        r is Err ==> (r matches Err(NexusEmitError::Transport(_))),
        r matches Err(NexusEmitError::Transport(m)) ==> m@ == size_breach_text(content_length),
{
    if let Some(n) = content_length {
        if n > MAX_RESPONSE_BYTES {
            let mut m = String::from_str("response Content-Length ");
            push_dec_digits(&mut m, n);
            push_str(&mut m, " exceeds 1048576-byte cap");
            return Err(NexusEmitError::Transport(m));
        }
    }
    if read_len > MAX_RESPONSE_BYTES {
        return Err(NexusEmitError::Transport(String::from_str("response stream exceeded 1048576-byte cap")));
    }
    Ok(())
}

} // verus!
