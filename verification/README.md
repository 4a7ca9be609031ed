# workflow_trace

The decision logic of the workflow-trace observation engine, written in
Verus: every function under `src/` carries a `requires` / `ensures`
contract over a mathematical model (sequences, maps, integers) and is
proved against it.

## Layout

- `src/` — the verified library.
  - `m4_cascade` — groups atuin steps into cascade clusters (sliding
    gap window, per-cluster step cap, pane fan-out from dispatch records,
    FNV-1a cluster identifiers, temporal-gap flag, DAG depth).
  - `m5_battern` — Battern-protocol step labelling and observation
    (regex heuristic table, per-battern records, summaries).
  - `m9_watcher_namespace_guard` — the `workflow_trace_` namespace guard
    and its capability / evidence checks.
  - `m40_nexus_emit`, `m41_lcm_rpc`, `m42_stcortex_emit` — the decisions
    behind the substrate-feedback pushes: response classification,
    response-size caps, JSON-RPC envelope checks, Hebbian signal choice.
  - `m43_synthex_v2_inbound` — inbound event routing and drain refusal.
  - `orchestration` — argument parsing and report rendering of the two
    command-line entry points, the Security verdict, Conductor replies,
    candidate dispositions (dry run never dispatches) and live-stage skips.
  - `refusal_token`, `substrate_trust` — refusal payloads and the
    per-substrate trust table.
  - `text`, `arith`, `lexical`, `order` — string building, saturating
    arithmetic, lexicographic and stable orders, with their lemmas.
  - `json`, `display` — what `serde_json` reads off a JSON value, and the
    texts of outside error types.
- `tests/` — tests run against the compiled library.
- `app/` — plain Rust around the library: SQLite storage, HTTP clients,
  environment lookups, serde copies of library types, and the
  floating-point cost and band classification.

Calls into `regex` and `serde_json` go through small trusted wrappers
in `src/` whose contracts name or state what those crates return
(`src/json.rs` holds the JSON ones); the decisions taken on those results
(push responses, JSON-RPC envelopes, Conductor replies, the consumer-inputs
patch) are verified. Apart from the floating-point classification, `app/`
builds requests, reads and writes SQLite rows and HTTP bodies, and hands
what it read to the library.
