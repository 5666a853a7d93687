//! Order-sensitive searches over sequences: the first element with a
//! property, and mapping with a first failure.

use vstd::prelude::*;

verus! {

/// The position of the first element of `s` that satisfies `p`.
pub open spec fn first_index<A>(s: Seq<A>, p: spec_fn(A) -> bool) -> Option<int>
    decreases s.len(),
{
    if s.len() == 0 {
        None
    } else {
        match first_index(s.drop_last(), p) {
            Some(i) => Some(i),
            None => if p(s.last()) {
                Some(s.len() - 1)
            } else {
                None
            },
        }
    }
}

/// `i` is a position of `s` whose element satisfies `p`, and no earlier
/// element does.
pub open spec fn is_first<A>(s: Seq<A>, p: spec_fn(A) -> bool, i: int) -> bool {
    &&& 0 <= i < s.len()
    &&& p(s[i])
    &&& forall|j: int| 0 <= j < i ==> !p(#[trigger] s[j])
}

/// No element of `s` satisfies `p`.
pub open spec fn none_holds<A>(s: Seq<A>, p: spec_fn(A) -> bool) -> bool {
    forall|j: int| 0 <= j < s.len() ==> !p(#[trigger] s[j])
}

/// What `first_index` returns, characterised by positions.
pub proof fn lemma_first_index<A>(s: Seq<A>, p: spec_fn(A) -> bool)
    ensures
        match first_index(s, p) {
            Some(i) => is_first(s, p, i),
            None => none_holds(s, p),
        },
    decreases s.len(),
{
    if s.len() > 0 {
        lemma_first_index(s.drop_last(), p);
        match first_index(s.drop_last(), p) {
            Some(i) => {
                assert(s.drop_last()[i] == s[i]);
                assert forall|j: int| 0 <= j < i implies !p(#[trigger] s[j]) by {
                    assert(s.drop_last()[j] == s[j]);
                }
            },
            None => {
                assert forall|j: int| 0 <= j < s.len() - 1 implies !p(#[trigger] s[j]) by {
                    assert(s.drop_last()[j] == s[j]);
                }
            },
        }
    }
}

/// A position that is first is the one `first_index` returns.
pub proof fn lemma_first_index_is<A>(s: Seq<A>, p: spec_fn(A) -> bool, i: int)
    requires
        is_first(s, p, i),
    ensures
        first_index(s, p) == Some(i),
{
    lemma_first_index(s, p);
    match first_index(s, p) {
        Some(k) => {
            if k < i {
                assert(!p(s[k]));
            } else if i < k {
                assert(!p(s[i]));
            }
        },
        None => {
            assert(!p(s[i]));
        },
    }
}

/// Where no element satisfies `p`, `first_index` returns nothing.
pub proof fn lemma_first_index_none<A>(s: Seq<A>, p: spec_fn(A) -> bool)
    requires
        none_holds(s, p),
    ensures
        first_index(s, p) is None,
{
    lemma_first_index(s, p);
    if let Some(k) = first_index(s, p) {
        assert(!p(s[k]));
    }
}

/// The elements for which `f` fails.
pub open spec fn fails<A, B, E>(f: spec_fn(A) -> Result<B, E>) -> spec_fn(A) -> bool {
    |a: A| f(a) is Err
}

/// The value that `f` gives for `a`, where it succeeds.
pub open spec fn value_of<A, B, E>(f: spec_fn(A) -> Result<B, E>) -> spec_fn(A) -> B {
    |a: A| f(a)->Ok_0
}

/// Applies `f` to every element of `s` in order: the results where all
/// succeed, else the failure of the first element for which `f` fails.
pub open spec fn try_map<A, B, E>(s: Seq<A>, f: spec_fn(A) -> Result<B, E>) -> Result<Seq<B>, E> {
    match first_index(s, fails(f)) {
        Some(i) => Err(f(s[i])->Err_0),
        None => Ok(s.map_values(value_of(f))),
    }
}

/// `try_map` fails with the failure of the first failing element.
pub proof fn lemma_try_map_err<A, B, E>(s: Seq<A>, f: spec_fn(A) -> Result<B, E>, i: int)
    requires
        0 <= i < s.len(),
        f(s[i]) is Err,
        forall|j: int| 0 <= j < i ==> f(#[trigger] s[j]) is Ok,
    ensures
        try_map(s, f) == Err::<Seq<B>, E>(f(s[i])->Err_0),
{
    lemma_first_index_is(s, fails(f), i);
}

/// `try_map` succeeds with `out` where `f` maps every element of `s` to
/// the element of `out` at the same position.
pub proof fn lemma_try_map_ok<A, B, E>(s: Seq<A>, f: spec_fn(A) -> Result<B, E>, out: Seq<B>)
    requires
        out.len() == s.len(),
        forall|j: int| 0 <= j < s.len() ==> f(#[trigger] s[j]) == Ok::<B, E>(out[j]),
    ensures
        try_map(s, f) == Ok::<Seq<B>, E>(out),
{
    lemma_first_index_none(s, fails(f));
    assert(s.map_values(value_of(f)) =~= out);
}

/// `try_map` gives the same over two sequences of one length where the
/// functions agree position by position.
pub proof fn lemma_try_map_agrees<A, C, B, E>(
    s: Seq<A>,
    f: spec_fn(A) -> Result<B, E>,
    t: Seq<C>,
    g: spec_fn(C) -> Result<B, E>,
)
    requires
        s.len() == t.len(),
        forall|j: int| 0 <= j < s.len() ==> f(#[trigger] s[j]) == g(t[j]),
    ensures
        try_map(s, f) == try_map(t, g),
{
    lemma_first_index(s, fails(f));
    match first_index(s, fails(f)) {
        Some(i) => {
            assert forall|j: int| 0 <= j < i implies !fails(g)(#[trigger] t[j]) by {
                assert(!fails(f)(s[j]));
            }
            lemma_first_index_is(t, fails(g), i);
        },
        None => {
            assert forall|j: int| 0 <= j < t.len() implies !fails(g)(#[trigger] t[j]) by {
                assert(!fails(f)(s[j]));
            }
            lemma_first_index_none(t, fails(g));
            assert(s.map_values(value_of(f)) =~= t.map_values(value_of(g)));
        },
    }
}

} // verus!
