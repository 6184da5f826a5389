//! Facts about filtered sequences.

use vstd::prelude::*;

verus! {

/// Filtering one element more keeps what was kept, and adds that element if it
/// passes.
pub proof fn lemma_filter_take<A>(s: Seq<A>, keep: spec_fn(A) -> bool, i: int)
    requires
        0 <= i < s.len(),
    ensures
        s.take(i + 1).filter(keep) == if keep(s[i]) {
            s.take(i).filter(keep).push(s[i])
        } else {
            s.take(i).filter(keep)
        },
{
    reveal(Seq::filter);
    assert(s.take(i + 1).drop_last() =~= s.take(i));
}

/// Nothing is left of nothing.
pub proof fn lemma_filter_empty<A>(s: Seq<A>, keep: spec_fn(A) -> bool)
    ensures
        s.take(0).filter(keep) == Seq::<A>::empty(),
        s.take(s.len() as int) == s,
{
    reveal(Seq::filter);
    assert(s.take(s.len() as int) =~= s);
}

/// Every element that is kept passes and stood in the sequence; every element
/// that passes is kept; no more are kept than there were.
pub proof fn lemma_filter_members<A>(s: Seq<A>, keep: spec_fn(A) -> bool)
    ensures
        s.filter(keep).len() <= s.len(),
        forall|i: int|
            0 <= i < s.filter(keep).len() ==> keep(#[trigger] s.filter(keep)[i]) && s.contains(
                s.filter(keep)[i],
            ),
        forall|j: int| 0 <= j < s.len() && keep(#[trigger] s[j]) ==> s.filter(keep).contains(s[j]),
    decreases s.len(),
{
    reveal(Seq::filter);
    if s.len() > 0 {
        let t = s.drop_last();
        lemma_filter_members(t, keep);
        let f = s.filter(keep);
        assert forall|i: int| 0 <= i < f.len() implies keep(#[trigger] f[i]) && s.contains(f[i]) by {
            if i < t.filter(keep).len() {
                assert(t.contains(t.filter(keep)[i]));
                let k = choose|k: int| 0 <= k < t.len() && t[k] == t.filter(keep)[i];
                assert(s[k] == f[i]);
            } else {
                assert(s[s.len() - 1] == f[i]);
            }
        }
        assert forall|j: int| 0 <= j < s.len() && keep(#[trigger] s[j]) implies f.contains(s[j]) by {
            if j < t.len() {
                assert(keep(t[j]));
                let k = choose|k: int|
                    0 <= k < t.filter(keep).len() && t.filter(keep)[k] == t[j];
                assert(f[k] == s[j]);
            } else {
                assert(f[f.len() - 1] == s[j]);
            }
        }
    }
}

/// What holds of every two elements in order still holds of those that are kept.
pub proof fn lemma_filter_pairs<A>(
    s: Seq<A>,
    keep: spec_fn(A) -> bool,
    rel: spec_fn(A, A) -> bool,
)
    requires
        forall|i: int, j: int| 0 <= i < j < s.len() ==> rel(#[trigger] s[i], #[trigger] s[j]),
    ensures
        forall|i: int, j: int|
            0 <= i < j < s.filter(keep).len() ==> rel(
                #[trigger] s.filter(keep)[i],
                #[trigger] s.filter(keep)[j],
            ),
    decreases s.len(),
{
    reveal(Seq::filter);
    if s.len() > 0 {
        let t = s.drop_last();
        assert forall|i: int, j: int| 0 <= i < j < t.len() implies rel(
            #[trigger] t[i],
            #[trigger] t[j],
        ) by {
            assert(rel(s[i], s[j]));
        }
        lemma_filter_pairs(t, keep, rel);
        lemma_filter_members(t, keep);
        let f = s.filter(keep);
        let g = t.filter(keep);
        assert forall|i: int, j: int| 0 <= i < j < f.len() implies rel(
            #[trigger] f[i],
            #[trigger] f[j],
        ) by {
            if j < g.len() {
                assert(rel(g[i], g[j]));
            } else {
                assert(t.contains(g[i]));
                let k = choose|k: int| 0 <= k < t.len() && t[k] == g[i];
                assert(rel(s[k], s[s.len() - 1]));
            }
        }
    }
}

/// Filtering by a test that a first filter already made changes nothing.
pub proof fn lemma_filter_twice<A>(
    s: Seq<A>,
    first: spec_fn(A) -> bool,
    second: spec_fn(A) -> bool,
)
    requires
        forall|a: A| #[trigger] first(a) ==> second(a),
    ensures
        s.filter(first).filter(second) == s.filter(first),
        s.filter(second).filter(first) == s.filter(first),
    decreases s.len(),
{
    reveal(Seq::filter);
    if s.len() > 0 {
        let t = s.drop_last();
        lemma_filter_twice(t, first, second);
        if first(s.last()) {
            assert(second(s.last()));
            assert(t.filter(first).push(s.last()).drop_last() =~= t.filter(first));
            assert(t.filter(second).push(s.last()).drop_last() =~= t.filter(second));
        } else if second(s.last()) {
            assert(t.filter(second).push(s.last()).drop_last() =~= t.filter(second));
        }
    }
}

/// Two tests that agree on every element of a sequence keep the same ones.
pub proof fn lemma_filter_same<A>(s: Seq<A>, f: spec_fn(A) -> bool, g: spec_fn(A) -> bool)
    requires
        forall|i: int| 0 <= i < s.len() ==> f(#[trigger] s[i]) == g(s[i]),
    ensures
        s.filter(f) == s.filter(g),
    decreases s.len(),
{
    reveal(Seq::filter);
    if s.len() > 0 {
        let t = s.drop_last();
        assert forall|i: int| 0 <= i < t.len() implies f(#[trigger] t[i]) == g(t[i]) by {
            assert(t[i] == s[i]);
        }
        lemma_filter_same(t, f, g);
        assert(f(s.last()) == g(s.last()));
    }
}

/// What is kept of a sequence none of whose elements passes.
pub proof fn lemma_filter_none<A>(s: Seq<A>, keep: spec_fn(A) -> bool)
    requires
        forall|j: int| 0 <= j < s.len() ==> !keep(#[trigger] s[j]),
    ensures
        s.filter(keep) == Seq::<A>::empty(),
{
    lemma_filter_members(s, keep);
    if s.filter(keep).len() > 0 {
        let x = s.filter(keep)[0];
        assert(keep(x) && s.contains(x));
        let j = choose|j: int| 0 <= j < s.len() && s[j] == x;
        assert(!keep(s[j]));
    }
    assert(s.filter(keep) =~= Seq::<A>::empty());
}

/// What is kept of a sequence with just one element that passes.
pub proof fn lemma_filter_sole<A>(s: Seq<A>, keep: spec_fn(A) -> bool, i: int)
    requires
        0 <= i < s.len(),
        keep(s[i]),
        forall|j: int| 0 <= j < s.len() && j != i ==> !keep(#[trigger] s[j]),
    ensures
        s.filter(keep) == seq![s[i]],
    decreases s.len(),
{
    let t = s.drop_last();
    if i == s.len() - 1 {
        assert forall|j: int| 0 <= j < t.len() implies !keep(#[trigger] t[j]) by {
            assert(t[j] == s[j]);
        }
        lemma_filter_none(t, keep);
    } else {
        assert forall|j: int| 0 <= j < t.len() && j != i implies !keep(#[trigger] t[j]) by {
            assert(t[j] == s[j]);
        }
        lemma_filter_sole(t, keep, i);
        assert(!keep(s.last()));
    }
    reveal(Seq::filter);
    assert(s.filter(keep) =~= seq![s[i]]);
}

/// Filtering goes piece by piece, so what is kept stands in its old order.
pub proof fn lemma_filter_add<A>(a: Seq<A>, b: Seq<A>, keep: spec_fn(A) -> bool)
    ensures
        (a + b).filter(keep) == a.filter(keep) + b.filter(keep),
{
    Seq::<A>::filter_distributes_over_add(a, b, keep);
}

/// A sequence all of whose elements pass is kept whole.
pub proof fn lemma_filter_all<A>(s: Seq<A>, keep: spec_fn(A) -> bool)
    requires
        forall|j: int| 0 <= j < s.len() ==> keep(#[trigger] s[j]),
    ensures
        s.filter(keep) == s,
    decreases s.len(),
{
    reveal(Seq::filter);
    if s.len() > 0 {
        let t = s.drop_last();
        assert forall|j: int| 0 <= j < t.len() implies keep(#[trigger] t[j]) by {
            assert(t[j] == s[j]);
        }
        lemma_filter_all(t, keep);
        assert(keep(s[s.len() - 1]));
        assert(t.push(s.last()) =~= s);
    } else {
        assert(s.filter(keep) =~= s);
    }
}

}
