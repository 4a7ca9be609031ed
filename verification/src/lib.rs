//! Verified core of the workflow-trace observation engine.
pub mod text;
pub mod display;
pub mod json;
pub mod arith;
pub mod lexical;
pub mod order;
pub mod m40_nexus_emit;
pub mod m41_lcm_rpc;
pub mod m42_stcortex_emit;
pub mod m4_cascade;
pub mod m5_battern;
pub mod m6_cost;
pub mod m7_workflow_runs;
pub mod m8_povm_build_prereq;
pub mod m32_dispatcher;
pub mod m43_synthex_v2_inbound;
pub mod m33_verifier;
pub mod orchestration;
pub mod refusal_token;
pub mod substrate_trust;
pub mod m9_watcher_namespace_guard;
