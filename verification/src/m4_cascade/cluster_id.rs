//! FNV-1a 64-bit hashing and the opaque cascade-cluster identifier.
//!
//! The cluster identifier is a one-way hash of the window timestamps, the
//! sorted pane labels and the step count; it renders only as
//! `cascade_cluster_<16 hex digits>` and never carries a pane label.
use vstd::prelude::*;
use crate::lexical::{chars_of, lemma_lex_total_ordering, lemma_sorted_unique, lex_leq, lex_sorted, sort_lex, strs_view};
use crate::text::{dec_int, hex_fixed, is_lower_hex, lemma_hex_fixed_shape, push_char, push_chars, push_dec_i64, push_hex_fixed};

verus! {

/// FNV-1a 64-bit offset basis.
pub const FNV_OFFSET_BASIS: u64 = 0xcbf2_9ce4_8422_2325;

/// FNV-1a 64-bit prime.
pub const FNV_PRIME: u64 = 0x0000_0100_0000_01b3;

/// FNV-1a over a byte sequence: start at the offset basis, and for each
/// byte xor it in and multiply by the prime modulo 2^64.
pub open spec fn fnv1a_spec(bytes: Seq<u8>) -> u64
    decreases bytes.len(),
{
    if bytes.len() == 0 {
        FNV_OFFSET_BASIS
    } else {
        vstd::wrapping::u64_specs::wrapping_mul(
            fnv1a_spec(bytes.drop_last()) ^ (bytes.last() as u64),
            FNV_PRIME,
        )
    }
}

/// FNV-1a 64-bit hash.
pub fn fnv1a_64(bytes: &[u8]) -> (h: u64)
    ensures
        h == fnv1a_spec(bytes@),
{
    let mut h = FNV_OFFSET_BASIS;
    let mut i: usize = 0;
    assert(bytes@.take(0) =~= Seq::<u8>::empty());
    while i < bytes.len()
        invariant
            i <= bytes.len(),
            h == fnv1a_spec(bytes@.take(i as int)),
        decreases bytes.len() - i,
    {
        let b = bytes[i];
        assert(bytes@.take(i + 1).drop_last() =~= bytes@.take(i as int));
        h = h ^ (b as u64);
        h = h.wrapping_mul(FNV_PRIME);
        i = i + 1;
    }
    assert(bytes@.take(bytes.len() as int) =~= bytes@);
    h
}

/// Opaque identifier for a correlated multi-pane cascade event; its text
/// is `cascade_cluster_<16-hex>` and carries no human-meaningful label.
#[derive(Debug, Clone, PartialEq, Eq, Hash)]
pub struct CascadeClusterId(pub String);

impl CascadeClusterId {
    /// Borrow the opaque string.
    pub fn as_str(&self) -> (r: &str)
        ensures
            r@ == self.0@,
    {
        self.0.as_str()
    }
}

/// The pane labels joined with `,` separators.
pub open spec fn join_commas(s: Seq<Seq<char>>) -> Seq<char>
    decreases s.len(),
{
    if s.len() == 0 {
        Seq::empty()
    } else if s.len() == 1 {
        s[0]
    } else {
        join_commas(s.drop_last()) + seq![','] + s.last()
    }
}

/// The text `"{start}:{end}"` whose hash covers the temporal window.
pub open spec fn window_text(start: i64, end: i64) -> Seq<char> {
    dec_int(start as int) + seq![':'] + dec_int(end as int)
}

/// The 64-bit cluster hash: `fnv1a(window) ^ fnv1a(sorted labels joined by
/// ",") ^ step_count`, each text hashed over its UTF-8 bytes.
pub open spec fn cluster_hash(start: i64, end: i64, labels: Seq<Seq<char>>, count: u64) -> u64 {
    fnv1a_spec(vstd::utf8::encode_utf8(window_text(start, end))) ^ fnv1a_spec(
        vstd::utf8::encode_utf8(join_commas(lex_sorted(labels))),
    ) ^ count
}

/// The full identifier text: `cascade_cluster_` then the hash as 16
/// lowercase hexadecimal digits.
pub open spec fn cluster_id_text(start: i64, end: i64, labels: Seq<Seq<char>>, count: u64) -> Seq<
    char,
> {
    "cascade_cluster_"@ + hex_fixed(cluster_hash(start, end, labels, count) as nat, 16, false)
}

/// The character sequences of a slice of string slices.
pub open spec fn str_views(s: Seq<&str>) -> Seq<Seq<char>> {
    s.map_values(|x: &str| x@)
}

/// Joins character vectors with `,` separators.
fn join_labels(v: &Vec<Vec<char>>) -> (s: String)
    ensures
        s@ == join_commas(strs_view(v@)),
{
    let mut s = String::new();
    let mut i: usize = 0;
    while i < v.len()
        invariant
            i <= v.len(),
            s@ == join_commas(strs_view(v@).take(i as int)),
        decreases v.len() - i,
    {
        let ghost before = s@;
        if i > 0 {
            push_char(&mut s, ',');
        }
        push_chars(&mut s, &v[i]);
        proof {
            let t = strs_view(v@).take(i + 1);
            assert(t.drop_last() =~= strs_view(v@).take(i as int));
            if i == 0 {
                assert(t.len() == 1);
                assert(s@ =~= t[0]);
            } else {
                assert(s@ =~= join_commas(t.drop_last()) + seq![','] + t.last());
            }
        }
        i = i + 1;
    }
    assert(strs_view(v@).take(v.len() as int) =~= strs_view(v@));
    s
}

/// Derive a stable opaque cluster id from window range, pane labels and
/// step count: `fnv1a_64(window) ^ fnv1a_64(sorted_labels) ^ step_count`.
pub fn assign_cluster_id(
    window_start_ns: i64,
    window_end_ns: i64,
    pane_labels: &[&str],
    step_count: usize,
) -> (id: CascadeClusterId)
    ensures
        id.0@ == cluster_id_text(
            window_start_ns,
            window_end_ns,
            str_views(pane_labels@),
            step_count as u64,
        ),
{
    let mut items: Vec<Vec<char>> = Vec::new();
    let mut i: usize = 0;
    while i < pane_labels.len()
        invariant
            i <= pane_labels.len(),
            strs_view(items@) =~= str_views(pane_labels@).take(i as int),
        decreases pane_labels.len() - i,
    {
        let c = chars_of(pane_labels[i]);
        let ghost before = items@;
        items.push(c);
        proof {
            assert(items@ =~= before.push(c));
            assert(strs_view(items@) =~= strs_view(before).push(c@));
            assert(str_views(pane_labels@).take(i + 1) =~= str_views(pane_labels@).take(
                i as int,
            ).push(pane_labels@[i as int]@));
        }
        i = i + 1;
    }
    assert(str_views(pane_labels@).take(pane_labels.len() as int) =~= str_views(pane_labels@));
    let sorted = sort_lex(items);
    let joined = join_labels(&sorted);
    let mut window = String::new();
    push_dec_i64(&mut window, window_start_ns);
    push_char(&mut window, ':');
    push_dec_i64(&mut window, window_end_ns);
    assert(window@ =~= window_text(window_start_ns, window_end_ns));
    let hash_a = fnv1a_64(window.as_str().as_bytes());
    let hash_b = fnv1a_64(joined.as_str().as_bytes());
    let count_u64 = step_count as u64;
    let id_u64 = hash_a ^ hash_b ^ count_u64;
    let mut text = String::from_str("cascade_cluster_");
    push_hex_fixed(&mut text, id_u64, 16, false);
    CascadeClusterId(text)
}

/// Every cluster id has the shape `cascade_cluster_` followed by exactly 16
/// lowercase hexadecimal digits, whatever the labels were.
pub proof fn lemma_cluster_id_shape(start: i64, end: i64, labels: Seq<Seq<char>>, count: u64)
    ensures
        cluster_id_text(start, end, labels, count).len() == 32,
        cluster_id_text(start, end, labels, count).subrange(0, 16) == "cascade_cluster_"@,
        is_lower_hex(cluster_id_text(start, end, labels, count).subrange(16, 32)),
{
    reveal_strlit("cascade_cluster_");
    let h = hex_fixed(cluster_hash(start, end, labels, count) as nat, 16, false);
    lemma_hex_fixed_shape(cluster_hash(start, end, labels, count) as nat, 16);
    let t = cluster_id_text(start, end, labels, count);
    assert(t.subrange(0, 16) =~= "cascade_cluster_"@);
    assert(t.subrange(16, 32) =~= h);
}

/// The cluster id does not depend on the order in which pane labels are
/// given: any rearrangement of the same labels yields the same id.
pub proof fn lemma_cluster_id_label_order_invariant(
    start: i64,
    end: i64,
    a: Seq<Seq<char>>,
    b: Seq<Seq<char>>,
    count: u64,
)
    requires
        a.to_multiset() == b.to_multiset(),
    ensures
        cluster_id_text(start, end, a, count) == cluster_id_text(start, end, b, count),
{
    lemma_lex_total_ordering();
    a.lemma_sort_by_ensures(lex_leq());
    b.lemma_sort_by_ensures(lex_leq());
    lemma_sorted_unique(lex_sorted(a), lex_sorted(b), lex_leq());
}

} // verus!
