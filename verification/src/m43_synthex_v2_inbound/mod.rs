//! Inbound events from synthex-v2: event vocabulary, the routing handler
//! and the inbound server's configuration.
pub mod events;
pub mod handler;

use vstd::prelude::*;
pub use self::events::{InboundEvent, InboundEventKind, InboundSource};
pub use self::handler::{HandlerError, HandlerOutcome, InboundHandler};

verus! {

/// Default port of the inbound server.
pub const DEFAULT_INBOUND_PORT: u16 = 8094;

/// Inbound server configuration.
#[derive(Debug, Clone, PartialEq, Eq)]
pub struct InboundServerConfig {
    /// Listening port.
    pub port: u16,
    /// Largest accepted request body.
    pub max_body_bytes: usize,
    /// Whether payloads are logged.
    pub log_payloads: bool,
}

impl Default for InboundServerConfig {
    /// Port 8094, 64 KiB bodies, payloads not logged.
    fn default() -> (c: Self)
        ensures
            c.port == DEFAULT_INBOUND_PORT,
            c.max_body_bytes == 64 * 1024,
            !c.log_payloads,
    {
        InboundServerConfig { port: DEFAULT_INBOUND_PORT, max_body_bytes: 64 * 1024, log_payloads: false }
    }
}

} // verus!
