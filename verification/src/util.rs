//! Small executable helpers shared across the crate.

use vstd::prelude::*;

verus! {

/// Relies on `<str as PartialEq>::eq`, which compares the character
/// contents of the two string slices.
#[verifier::external_body]
pub fn str_eq(a: &str, b: &str) -> (r: bool)
    ensures
        r == (a@ == b@),
{
    a == b
}

/// Relies on `uuid::Uuid::new_v4` and its hyphenated `Display` form: a
/// fresh version-4 UUID prints as 36 ASCII characters.
#[verifier::external_body]
pub fn new_row_id() -> (r: String)
    ensures
        r@.len() == 36,
{
    uuid::Uuid::new_v4().to_string()
}

/// Filtering a sequence extended by one element keeps the element exactly
/// when it satisfies the predicate.
pub proof fn lemma_filter_push<A>(s: Seq<A>, pred: spec_fn(A) -> bool, x: A)
    ensures
        (s.push(x)).filter(pred) == (if pred(x) {
            s.filter(pred).push(x)
        } else {
            s.filter(pred)
        }),
{
    reveal(Seq::filter);
    assert(s.push(x).drop_last() =~= s);
    assert(s.push(x).last() == x);
}

/// Mapping over a sequence extended by one element appends the mapped
/// element.
pub proof fn lemma_map_values_push<A, B>(s: Seq<A>, f: spec_fn(A) -> B, x: A)
    ensures
        (s.push(x)).map_values(f) == s.map_values(f).push(f(x)),
{
    assert((s.push(x)).map_values(f) =~= s.map_values(f).push(f(x)));
}

/// Two filters that agree on every element of the sequence produce the
/// same result.
pub proof fn lemma_filter_congruent<A>(s: Seq<A>, p1: spec_fn(A) -> bool, p2: spec_fn(A) -> bool)
    requires
        forall|i: int| 0 <= i < s.len() ==> p1(#[trigger] s[i]) == p2(s[i]),
    ensures
        s.filter(p1) == s.filter(p2),
    decreases s.len(),
{
    reveal(Seq::filter);
    if s.len() != 0 {
        lemma_filter_congruent(s.drop_last(), p1, p2);
    }
}

/// Every element of a filtered sequence satisfies the predicate and is an
/// element of the original sequence.
pub proof fn lemma_filter_elems<A>(s: Seq<A>, pred: spec_fn(A) -> bool)
    ensures
        forall|i: int|
            0 <= i < s.filter(pred).len() ==> pred(#[trigger] s.filter(pred)[i]) && s.contains(
                s.filter(pred)[i],
            ),
    decreases s.len(),
{
    reveal(Seq::filter);
    if s.len() != 0 {
        lemma_filter_elems(s.drop_last(), pred);
        let out = s.filter(pred);
        let sub = s.drop_last().filter(pred);
        assert forall|i: int|
            0 <= i < out.len() implies pred(#[trigger] out[i]) && s.contains(out[i]) by {
            if i < sub.len() {
                assert(sub[i] == out[i]);
                let j = choose|j: int| 0 <= j < s.drop_last().len() && s.drop_last()[j] == sub[i];
                assert(s[j] == out[i]);
            } else {
                assert(out[i] == s.last());
                assert(s[s.len() - 1] == out[i]);
            }
        }
    }
}

/// A filter that accepts every element returns the sequence unchanged.
pub proof fn lemma_filter_all<A>(s: Seq<A>, pred: spec_fn(A) -> bool)
    requires
        forall|i: int| 0 <= i < s.len() ==> pred(#[trigger] s[i]),
    ensures
        s.filter(pred) == s,
    decreases s.len(),
{
    reveal(Seq::filter);
    if s.len() == 0 {
        assert(s =~= Seq::<A>::empty());
        assert(s.filter(pred) =~= s);
    } else {
        lemma_filter_all(s.drop_last(), pred);
        assert(s.drop_last().push(s.last()) =~= s);
        assert(s.filter(pred) =~= s);
    }
}

/// Two filters over the same sequence commute.
pub proof fn lemma_filter_commutes<A>(s: Seq<A>, p: spec_fn(A) -> bool, q: spec_fn(A) -> bool)
    ensures
        s.filter(p).filter(q) == s.filter(q).filter(p),
    decreases s.len(),
{
    reveal(Seq::filter);
    if s.len() == 0 {
        assert(s.filter(p) =~= s);
        assert(s.filter(q) =~= s);
    } else {
        let t = s.drop_last();
        let x = s.last();
        lemma_filter_commutes(t, p, q);
        lemma_filter_push(t.filter(p), q, x);
        lemma_filter_push(t.filter(q), p, x);
        assert(s.filter(p).filter(q) =~= s.filter(q).filter(p));
    }
}

/// A filter that rejects exactly the element at `i` removes it.
pub proof fn lemma_filter_remove<A>(s: Seq<A>, pred: spec_fn(A) -> bool, i: int)
    requires
        0 <= i < s.len(),
        !pred(s[i]),
        forall|j: int| 0 <= j < s.len() && j != i ==> pred(#[trigger] s[j]),
    ensures
        s.filter(pred) == s.remove(i),
{
    broadcast use vstd::seq_lib::group_seq_lib_default;

    reveal(Seq::filter);
    let left = s.subrange(0, i);
    let mid = seq![s[i]];
    let right = s.subrange(i + 1, s.len() as int);
    assert(s =~= left + (mid + right));
    lemma_filter_all(left, pred);
    lemma_filter_all(right, pred);
    assert(Seq::<A>::empty().filter(pred) =~= Seq::<A>::empty());
    assert(mid.drop_last() =~= Seq::<A>::empty());
    assert(mid.filter(pred) =~= Seq::<A>::empty());
    assert((left + (mid + right)).filter(pred) == left.filter(pred) + (mid + right).filter(pred));
    assert(s.filter(pred) =~= s.remove(i));
}

} // verus!
