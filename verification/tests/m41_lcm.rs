use std::time::Duration;

use workflow_trace::m41_lcm_rpc::{
    HttpLcmClient, DEFAULT_LCM_URL, DEFAULT_RPC_TIMEOUT_SECS, MAX_RESPONSE_BYTES, RPC_METHOD,
};

const DEFAULT_RPC_TIMEOUT: Duration = Duration::from_secs(DEFAULT_RPC_TIMEOUT_SECS);

#[test]
fn rpc_method_is_lcm_loop_create() {
    assert_eq!(RPC_METHOD, "lcm.loop.create");
}

#[test]
fn default_url_is_loopback_v3() {
    assert_eq!(DEFAULT_LCM_URL, "http://127.0.0.1:8082/rpc");
}

#[test]
fn default_timeout_is_10s() {
    assert_eq!(DEFAULT_RPC_TIMEOUT.as_secs(), 10);
}

#[test]
fn rpc_method_const_locked_to_lcm_loop_create() {
    assert_eq!(RPC_METHOD, "lcm.loop.create");
    assert_ne!(RPC_METHOD, "lcm.deploy");
    assert_ne!(RPC_METHOD, "lcm.loop.deploy");
}

#[test]
fn default_lcm_url_pinned_to_dev_ops_engine_v3() {
    assert_eq!(DEFAULT_LCM_URL, "http://127.0.0.1:8082/rpc");
    assert!(!DEFAULT_LCM_URL.contains("https://"));
}

#[test]
fn default_rpc_timeout_exactly_ten_seconds() {
    assert_eq!(DEFAULT_RPC_TIMEOUT, std::time::Duration::from_secs(10));
    assert!(
        DEFAULT_RPC_TIMEOUT > std::time::Duration::from_secs(5),
        "LCM timeout must exceed m40's 5s nexus push timeout"
    );
}

#[test]
fn allocate_request_id_starts_at_one() {
    let c = HttpLcmClient::new(DEFAULT_LCM_URL, DEFAULT_RPC_TIMEOUT);
    assert_eq!(c.allocate_request_id(), 1, "first id must be 1");
}

#[test]
fn allocate_request_id_is_strictly_increasing_and_contiguous() {
    let c = HttpLcmClient::new(DEFAULT_LCM_URL, DEFAULT_RPC_TIMEOUT);
    let ids: Vec<u64> = (0..50).map(|_| c.allocate_request_id()).collect();
    for (i, id) in ids.iter().enumerate() {
        assert_eq!(*id, (i as u64) + 1, "id stream must be contiguous from 1");
    }
}

#[test]
fn allocate_request_id_streams_are_per_client_independent() {
    let a = HttpLcmClient::new(DEFAULT_LCM_URL, DEFAULT_RPC_TIMEOUT);
    let b = HttpLcmClient::new(DEFAULT_LCM_URL, DEFAULT_RPC_TIMEOUT);
    let _ = a.allocate_request_id();
    let _ = a.allocate_request_id();
    assert_eq!(b.allocate_request_id(), 1);
    assert_eq!(a.allocate_request_id(), 3);
}

#[test]
fn rpc_method_has_three_dotted_segments() {
    let segs: Vec<&str> = RPC_METHOD.split('.').collect();
    assert_eq!(segs, vec!["lcm", "loop", "create"]);
}

#[test]
fn mod_max_response_bytes_is_one_mib() {
    assert_eq!(MAX_RESPONSE_BYTES, 1024 * 1024);
}
