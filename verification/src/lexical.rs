//! Lexicographic ordering of strings (by code point, which is also the
//! byte order of their UTF-8 encodings) and a verified sort.
use vstd::prelude::*;
use vstd::relations::*;
use vstd::multiset::Multiset;

verus! {

broadcast use vstd::seq::group_seq_axioms;

/// `a <= b` in lexicographic order over Unicode scalar values.
pub open spec fn lex_le(a: Seq<char>, b: Seq<char>) -> bool
    decreases a.len(),
{
    if a.len() == 0 {
        true
    } else if b.len() == 0 {
        false
    } else if (a[0] as int) < (b[0] as int) {
        true
    } else if a[0] == b[0] {
        lex_le(a.drop_first(), b.drop_first())
    } else {
        false
    }
}

/// The lexicographic order as a relation value.
pub open spec fn lex_leq() -> spec_fn(Seq<char>, Seq<char>) -> bool {
    |a: Seq<char>, b: Seq<char>| lex_le(a, b)
}

pub proof fn lemma_lex_reflexive(a: Seq<char>)
    ensures
        lex_le(a, a),
    decreases a.len(),
{
    if a.len() > 0 {
        lemma_lex_reflexive(a.drop_first());
    }
}

pub proof fn lemma_lex_antisymmetric(a: Seq<char>, b: Seq<char>)
    requires
        lex_le(a, b),
        lex_le(b, a),
    ensures
        a == b,
    decreases a.len(),
{
    if a.len() == 0 {
        assert(b.len() == 0);
        assert(a =~= b);
    } else {
        assert(b.len() > 0);
        assert(a[0] == b[0]) by {
            if a[0] != b[0] {
                assert((a[0] as int) != (b[0] as int));
            }
        }
        lemma_lex_antisymmetric(a.drop_first(), b.drop_first());
        assert(a =~= seq![a[0]] + a.drop_first());
        assert(b =~= seq![b[0]] + b.drop_first());
    }
}

pub proof fn lemma_lex_transitive(a: Seq<char>, b: Seq<char>, c: Seq<char>)
    requires
        lex_le(a, b),
        lex_le(b, c),
    ensures
        lex_le(a, c),
    decreases a.len(),
{
    if a.len() > 0 && b.len() > 0 && c.len() > 0 {
        if a[0] == b[0] && b[0] == c[0] {
            lemma_lex_transitive(a.drop_first(), b.drop_first(), c.drop_first());
        }
    }
}

pub proof fn lemma_lex_total(a: Seq<char>, b: Seq<char>)
    ensures
        lex_le(a, b) || lex_le(b, a),
    decreases a.len(),
{
    if a.len() > 0 && b.len() > 0 {
        if a[0] == b[0] {
            lemma_lex_total(a.drop_first(), b.drop_first());
        } else {
            assert((a[0] as int) != (b[0] as int));
        }
    }
}

pub proof fn lemma_lex_total_ordering()
    ensures
        total_ordering(lex_leq()),
{
    assert forall|x: Seq<char>| #[trigger] lex_leq()(x, x) by {
        lemma_lex_reflexive(x);
    }
    assert forall|x: Seq<char>, y: Seq<char>|
        #[trigger] lex_leq()(x, y) && #[trigger] lex_leq()(y, x) implies x == y by {
        lemma_lex_antisymmetric(x, y);
    }
    assert forall|x: Seq<char>, y: Seq<char>, z: Seq<char>|
        #[trigger] lex_leq()(x, y) && #[trigger] lex_leq()(y, z) implies lex_leq()(x, z) by {
        lemma_lex_transitive(x, y, z);
    }
    assert forall|x: Seq<char>, y: Seq<char>| #[trigger] lex_leq()(x, y) || #[trigger] lex_leq()(
        y,
        x,
    ) by {
        lemma_lex_total(x, y);
    }
}

/// Two sequences sorted by the same total order and holding the same
/// elements are equal.
pub proof fn lemma_sorted_unique<T>(s1: Seq<T>, s2: Seq<T>, leq: spec_fn(T, T) -> bool)
    requires
        total_ordering(leq),
        sorted_by(s1, leq),
        sorted_by(s2, leq),
        s1.to_multiset() == s2.to_multiset(),
    ensures
        s1 == s2,
    decreases s1.len(),
{
    broadcast use vstd::seq_lib::group_to_multiset_ensures;

    assert(s1.len() == s1.to_multiset().len());
    assert(s2.len() == s2.to_multiset().len());
    if s1.len() == 0 {
        assert(s1 =~= s2);
    } else {
        let x = s1[0];
        let y = s2[0];
        assert(s1.to_multiset().count(y) > 0);
        assert(s2.to_multiset().count(x) > 0);
        assert(s1.contains(y));
        assert(s2.contains(x));
        let i = choose|i: int| 0 <= i < s1.len() && s1[i] == y;
        let j = choose|j: int| 0 <= j < s2.len() && s2[j] == x;
        assert(leq(x, y)) by {
            if i > 0 {
                assert(leq(s1[0], s1[i]));
            }
        }
        assert(leq(y, x)) by {
            if j > 0 {
                assert(leq(s2[0], s2[j]));
            }
        }
        assert(x == y);
        let t1 = s1.remove(0);
        let t2 = s2.remove(0);
        assert(t1.to_multiset() =~= s1.to_multiset().remove(x));
        assert(t2.to_multiset() =~= s2.to_multiset().remove(y));
        assert(sorted_by(t1, leq)) by {
            assert forall|a: int, b: int| 0 <= a < b < t1.len() implies #[trigger] leq(
                t1[a],
                t1[b],
            ) by {
                assert(t1[a] == s1[a + 1]);
                assert(t1[b] == s1[b + 1]);
            }
        }
        assert(sorted_by(t2, leq)) by {
            assert forall|a: int, b: int| 0 <= a < b < t2.len() implies #[trigger] leq(
                t2[a],
                t2[b],
            ) by {
                assert(t2[a] == s2[a + 1]);
                assert(t2[b] == s2[b + 1]);
            }
        }
        lemma_sorted_unique(t1, t2, leq);
        assert(s1 =~= seq![x] + t1);
        assert(s2 =~= seq![y] + t2);
    }
}

/// The characters of a string slice.
pub fn chars_of(s: &str) -> (v: Vec<char>)
    ensures
        v@ == s@,
{
    let mut v: Vec<char> = Vec::new();
    for c in it: s.chars()
        invariant
            v@ == it.seq().take(it.index() as int),
    {
        v.push(c);
    }
    v
}


/// The character sequences held by a vector of character vectors.
pub open spec fn strs_view(v: Seq<Vec<char>>) -> Seq<Seq<char>> {
    v.map_values(|x: Vec<char>| x@)
}

/// The canonical ascending arrangement of a sequence of strings.
pub open spec fn lex_sorted(s: Seq<Seq<char>>) -> Seq<Seq<char>> {
    s.sort_by(lex_leq())
}

/// `lex_le` decided by a left-to-right scan.
pub fn lex_le_exec(a: &Vec<char>, b: &Vec<char>) -> (r: bool)
    ensures
        r == lex_le(a@, b@),
{
    let mut i: usize = 0;
    assert(a@.skip(0) =~= a@);
    assert(b@.skip(0) =~= b@);
    loop
        invariant
            i <= a.len(),
            i <= b.len(),
            lex_le(a@, b@) == lex_le(a@.skip(i as int), b@.skip(i as int)),
        decreases a.len() - i,
    {
        if i == a.len() {
            return true;
        }
        if i == b.len() {
            return false;
        }
        let x = a[i];
        let y = b[i];
        assert(a@.skip(i as int)[0] == x);
        assert(b@.skip(i as int)[0] == y);
        if crate::text::char_code(x) < crate::text::char_code(y) {
            return true;
        }
        if x != y {
            return false;
        }
        assert(a@.skip(i as int).drop_first() =~= a@.skip(i + 1));
        assert(b@.skip(i as int).drop_first() =~= b@.skip(i + 1));
        i = i + 1;
    }
}

pub proof fn lemma_insert_multiset<T>(s: Seq<T>, pos: int, a: T)
    requires
        0 <= pos <= s.len(),
    ensures
        s.insert(pos, a).to_multiset() =~= s.to_multiset().insert(a),
{
    broadcast use vstd::seq_lib::group_to_multiset_ensures;
    broadcast use vstd::multiset::group_multiset_axioms;

    let t = s.insert(pos, a);
    s.insert_ensures(pos, a);
    assert(t.remove(pos) =~= s);
    assert(t.remove(pos).to_multiset() =~= t.to_multiset().remove(a));
    assert(t.contains(a)) by {
        assert(t[pos] == a);
    }
    assert(t.to_multiset().count(a) > 0);
}

/// Sorts strings into ascending lexicographic order.
pub fn sort_lex(items: Vec<Vec<char>>) -> (r: Vec<Vec<char>>)
    ensures
        strs_view(r@) == lex_sorted(strs_view(items@)),
{
    broadcast use vstd::seq_lib::group_to_multiset_ensures;
    broadcast use vstd::multiset::group_multiset_axioms;

    let ghost orig = strs_view(items@);
    let mut items = items;
    let mut out: Vec<Vec<char>> = Vec::new();
    proof {
        lemma_lex_total_ordering();
        assert(strs_view(out@) =~= Seq::<Seq<char>>::empty());
    }
    while items.len() > 0
        invariant
            total_ordering(lex_leq()),
            strs_view(out@).to_multiset().add(strs_view(items@).to_multiset())
                =~= orig.to_multiset(),
            sorted_by(strs_view(out@), lex_leq()),
        decreases items.len(),
    {
        let ghost old_items = items@;
        let ghost old_out = strs_view(out@);
        let x = items.pop().unwrap();
        proof {
            assert(old_items =~= items@.push(x));
            assert(strs_view(old_items) =~= strs_view(items@).push(x@));
            vstd::seq_lib::to_multiset_build(strs_view(items@), x@);
            assert(strs_view(old_items).to_multiset() =~= strs_view(items@).to_multiset().insert(
                x@,
            ));
        }
        let mut pos: usize = 0;
        while pos < out.len() && lex_le_exec(&out[pos], &x)
            invariant
                pos <= out.len(),
                forall|k: int| 0 <= k < pos ==> lex_le(#[trigger] out@[k]@, x@),
            decreases out.len() - pos,
        {
            pos = pos + 1;
        }
        proof {
            if pos < out.len() {
                lemma_lex_total(out@[pos as int]@, x@);
            }
        }
        out.insert(pos, x);
        proof {
            let s = strs_view(out@);
            assert(s =~= old_out.insert(pos as int, x@));
            lemma_insert_multiset(old_out, pos as int, x@);
            old_out.insert_ensures(pos as int, x@);
            assert forall|i: int, j: int| 0 <= i < j < s.len() implies #[trigger] lex_leq()(
                s[i],
                s[j],
            ) by {
                if j < pos {
                    assert(lex_leq()(old_out[i], old_out[j]));
                } else if j == pos {
                    assert(lex_le(old_out[i], x@));
                } else if i == pos {
                    assert(lex_le(x@, old_out[pos as int]));
                    if j - 1 > pos {
                        assert(lex_leq()(old_out[pos as int], old_out[j - 1]));
                        lemma_lex_transitive(x@, old_out[pos as int], old_out[j - 1]);
                    }
                } else if i < pos {
                    assert(lex_leq()(old_out[i], old_out[j - 1]));
                } else {
                    assert(lex_leq()(old_out[i - 1], old_out[j - 1]));
                }
            }
        }
    }
    proof {
        assert(strs_view(items@) =~= Seq::<Seq<char>>::empty());
        assert(strs_view(items@).to_multiset() =~= Multiset::empty());
        assert(strs_view(out@).to_multiset() =~= orig.to_multiset());
        orig.lemma_sort_by_ensures(lex_leq());
        lemma_sorted_unique(strs_view(out@), lex_sorted(orig), lex_leq());
    }
    out
}

} // verus!
