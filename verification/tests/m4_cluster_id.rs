use workflow_trace::m4_cascade::cluster_id::{assign_cluster_id, fnv1a_64, CascadeClusterId, FNV_OFFSET_BASIS, FNV_PRIME};
use std::collections::HashSet;

#[test]
fn fnv1a_constants_are_canonical() {
    assert_eq!(FNV_OFFSET_BASIS, 0xcbf2_9ce4_8422_2325);
    assert_eq!(FNV_PRIME, 0x0000_0100_0000_01b3);
}

#[test]
fn fnv1a_empty_returns_offset_basis() {
    assert_eq!(fnv1a_64(b""), FNV_OFFSET_BASIS);
}

#[test]
fn fnv1a_known_value_for_ascii_a() {
    let h = fnv1a_64(b"a");
    assert_ne!(h, FNV_OFFSET_BASIS);
}

#[test]
fn fnv1a_different_inputs_distinct() {
    assert_ne!(fnv1a_64(b"abc"), fnv1a_64(b"abd"));
}

#[test]
fn fnv1a_deterministic() {
    let a = fnv1a_64(b"workflow_trace_alpha");
    for _ in 0..100_u32 {
        assert_eq!(fnv1a_64(b"workflow_trace_alpha"), a);
    }
}

#[test]
fn cluster_id_display_is_prefix_plus_16_hex() {
    let id = assign_cluster_id(0, 1_000_000_000, &["ALPHA-LEFT", "BETA-LEFT"], 5);
    let s = id.as_str().to_string();
    assert!(s.starts_with("cascade_cluster_"));
    let suffix = &s["cascade_cluster_".len()..];
    assert_eq!(suffix.len(), 16);
    assert!(suffix.chars().all(|c| c.is_ascii_hexdigit()));
}

#[test]
fn cluster_id_does_not_leak_pane_label_substrings() {
    for label in ["ALPHA", "BETA", "GAMMA", "LEFT", "RIGHT", "TR", "BR"] {
        let id = assign_cluster_id(0, 1_000_000_000, &[label, "OTHER"], 5);
        let s = id.as_str().to_string();
        assert!(
            !s.contains(label),
            "F11 leak: label {label:?} in id {s:?}"
        );
    }
}

#[test]
fn cluster_id_pane_label_order_invariant() {
    let a = assign_cluster_id(0, 100, &["BETA-LEFT", "ALPHA-LEFT"], 3);
    let b = assign_cluster_id(0, 100, &["ALPHA-LEFT", "BETA-LEFT"], 3);
    assert_eq!(a, b, "label permutation must yield same id");
}

#[test]
fn cluster_id_step_count_distinguishes() {
    let a = assign_cluster_id(0, 100, &["X"], 3);
    let b = assign_cluster_id(0, 100, &["X"], 4);
    assert_ne!(a, b);
}

#[test]
fn cluster_id_window_distinguishes() {
    let a = assign_cluster_id(0, 100, &["X"], 3);
    let b = assign_cluster_id(0, 101, &["X"], 3);
    assert_ne!(a, b);
}

#[test]
fn cluster_id_deterministic_for_same_input() {
    for _ in 0..50_u32 {
        let id = assign_cluster_id(0, 100, &["X", "Y"], 3);
        assert_eq!(id, assign_cluster_id(0, 100, &["X", "Y"], 3));
    }
}

#[test]
fn cluster_id_collision_sweep_10k_pairs_under_one_percent() {
    let mut seen: HashSet<String> = HashSet::with_capacity(10_000);
    let mut collisions = 0_usize;
    for i in 0..10_000_i64 {
        let id = assign_cluster_id(
            i,
            i + 60_000_000_000,
            &[
                "pane_a",
                "pane_b",
                "pane_c",
            ],
            usize::try_from(i % 500).unwrap_or(0),
        );
        if !seen.insert(id.0) {
            collisions += 1;
        }
    }
    assert!(collisions < 100, "{collisions} collisions in 10k pairs > 1%");
}

#[test]
fn cluster_id_implements_clone_eq_hash() {
    let id = CascadeClusterId("cascade_cluster_0000000000000001".into());
    let id2 = id.clone();
    let mut s = HashSet::new();
    s.insert(id);
    s.insert(id2);
    assert_eq!(s.len(), 1);
}

#[test]
fn fnv1a_known_reference_value_for_single_byte() {
    let expected = (FNV_OFFSET_BASIS ^ 0x61).wrapping_mul(FNV_PRIME);
    assert_eq!(fnv1a_64(b"a"), expected);
}

#[test]
fn fnv1a_is_order_sensitive() {
    assert_ne!(fnv1a_64(b"ab"), fnv1a_64(b"ba"));
}

#[test]
fn fnv1a_single_zero_byte_still_mixes() {
    let h = fnv1a_64(&[0_u8]);
    assert_eq!(h, FNV_OFFSET_BASIS.wrapping_mul(FNV_PRIME));
    assert_ne!(h, FNV_OFFSET_BASIS);
}

#[test]
fn assign_cluster_id_empty_pane_labels_yields_well_formed_id() {
    let id = assign_cluster_id(0, 100, &[], 3);
    let s = id.as_str();
    assert!(s.starts_with("cascade_cluster_"));
    assert_eq!(s["cascade_cluster_".len()..].len(), 16);
}

#[test]
fn assign_cluster_id_handles_max_step_count_without_panic() {
    let id = assign_cluster_id(0, 100, &["X"], usize::MAX);
    assert!(id.as_str().starts_with("cascade_cluster_"));
    assert_ne!(id, assign_cluster_id(0, 100, &["X"], 1));
}

#[test]
fn assign_cluster_id_label_multiplicity_is_significant() {
    let single = assign_cluster_id(0, 100, &["X"], 3);
    let doubled = assign_cluster_id(0, 100, &["X", "X"], 3);
    assert_ne!(
        single, doubled,
        "label join is multiplicity-sensitive; 'X' != 'X,X'"
    );
}
