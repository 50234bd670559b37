//! Facts about filtering and counting in sequences.

use vstd::prelude::*;

verus! {

/// Counting in `s` followed by `a`.
pub proof fn lemma_count_push<A>(s: Seq<A>, a: A, x: A)
    ensures
        s.push(a).to_multiset().count(x) == s.to_multiset().count(x) + (if a == x {
            1nat
        } else {
            0nat
        }),
{
    broadcast use vstd::multiset::group_multiset_axioms;
    vstd::seq_lib::to_multiset_build(s, a);
}

/// A filter keeps every copy of the elements it lets through.
pub proof fn lemma_filter_count<A>(s: Seq<A>, p: spec_fn(A) -> bool, x: A)
    ensures
        s.filter(p).to_multiset().count(x) == (if p(x) {
            s.to_multiset().count(x)
        } else {
            0
        }),
    decreases s.len(),
{
    reveal(Seq::filter);
    broadcast use vstd::multiset::group_multiset_axioms;
    if s.len() == 0 {
        assert(s.filter(p) =~= s);
        vstd::seq_lib::to_multiset_contains(s, x);
    } else {
        let init = s.drop_last();
        lemma_filter_count(init, p, x);
        assert(s =~= init.push(s.last()));
        lemma_count_push(init, s.last(), x);
        if p(s.last()) {
            lemma_count_push(init.filter(p), s.last(), x);
        }
    }
}

/// What a filter holds.
pub proof fn lemma_filter_contains<A>(s: Seq<A>, p: spec_fn(A) -> bool, x: A)
    ensures
        s.filter(p).contains(x) <==> (s.contains(x) && p(x)),
{
    lemma_filter_count(s, p, x);
    vstd::seq_lib::to_multiset_contains(s, x);
    vstd::seq_lib::to_multiset_contains(s.filter(p), x);
}

/// Filtering keeps a sequence free of duplicates.
pub proof fn lemma_filter_no_duplicates<A>(s: Seq<A>, p: spec_fn(A) -> bool)
    requires
        s.no_duplicates(),
    ensures
        s.filter(p).no_duplicates(),
    decreases s.len(),
{
    reveal(Seq::filter);
    if s.len() > 0 {
        let init = s.drop_last();
        assert(init.no_duplicates());
        lemma_filter_no_duplicates(init, p);
        lemma_filter_contains(init, p, s.last());
        if p(s.last()) {
            assert(!init.contains(s.last()));
            let f = init.filter(p);
            assert forall|k: int| 0 <= k < f.len() implies f[k] != s.last() by {
                if f[k] == s.last() {
                    assert(f.contains(s.last()));
                }
            }
        }
    }
}

/// A filter that lets through at least what another does, applied after
/// it, is the other filter.
pub proof fn lemma_filter_filter<A>(s: Seq<A>, p: spec_fn(A) -> bool, q: spec_fn(A) -> bool)
    requires
        forall|x: A| #[trigger] q(x) ==> p(x),
    ensures
        s.filter(p).filter(q) == s.filter(q),
    decreases s.len(),
{
    reveal(Seq::filter);
    if s.len() > 0 {
        let init = s.drop_last();
        lemma_filter_filter(init, p, q);
        if p(s.last()) {
            let f = init.filter(p);
            assert(f.push(s.last()).drop_last() =~= f);
        }
    }
}

/// Removing an element that a filter drops leaves the filter unchanged.
pub proof fn lemma_filter_remove<A>(s: Seq<A>, p: spec_fn(A) -> bool, i: int)
    requires
        0 <= i < s.len(),
        !p(s[i]),
    ensures
        s.remove(i).filter(p) == s.filter(p),
{
    reveal(Seq::filter);
    let front = s.subrange(0, i);
    let back = s.subrange(i + 1, s.len() as int);
    assert(s =~= front + (seq![s[i]] + back));
    Seq::filter_distributes_over_add(front, seq![s[i]] + back, p);
    Seq::filter_distributes_over_add(seq![s[i]], back, p);
    Seq::filter_distributes_over_add(front, back, p);
    assert(seq![s[i]].drop_last() =~= Seq::<A>::empty());
    assert(Seq::<A>::empty().filter(p) =~= Seq::<A>::empty());
    assert(seq![s[i]].filter(p) =~= Seq::<A>::empty());
}

/// A filter that lets every element through changes nothing.
pub proof fn lemma_filter_all<A>(s: Seq<A>, p: spec_fn(A) -> bool)
    requires
        forall|i: int| 0 <= i < s.len() ==> p(#[trigger] s[i]),
    ensures
        s.filter(p) == s,
    decreases s.len(),
{
    reveal(Seq::filter);
    if s.len() > 0 {
        lemma_filter_all(s.drop_last(), p);
        assert(s.drop_last().push(s.last()) =~= s);
    }
}

/// A prefix counts an element no more often than the whole sequence.
pub proof fn lemma_count_prefix<A>(s: Seq<A>, k: int, x: A)
    requires
        0 <= k <= s.len(),
    ensures
        s.take(k).to_multiset().count(x) <= s.to_multiset().count(x),
    decreases s.len(),
{
    if k < s.len() {
        let init = s.drop_last();
        assert(init.take(k) =~= s.take(k));
        lemma_count_prefix(init, k, x);
        assert(s =~= init.push(s.last()));
        lemma_count_push(init, s.last(), x);
    } else {
        assert(s.take(k) =~= s);
    }
}

} // verus!
