use vstd::prelude::*;

verus! {

/// `i` is the first position of `s` whose element satisfies `p`.
pub open spec fn is_first<T>(s: Seq<T>, p: spec_fn(T) -> bool, i: int) -> bool {
    &&& 0 <= i < s.len()
    &&& p(s[i])
    &&& forall|j: int| 0 <= j < i ==> !p(#[trigger] s[j])
}

/// Some element of `s` satisfies `p`.
pub open spec fn any<T>(s: Seq<T>, p: spec_fn(T) -> bool) -> bool {
    exists|j: int| 0 <= j < s.len() && p(#[trigger] s[j])
}

/// The first position of `s` whose element satisfies `p` (meaningful when `any(s, p)`).
pub open spec fn first<T>(s: Seq<T>, p: spec_fn(T) -> bool) -> int {
    choose|i: int| is_first(s, p, i)
}

/// A first position is unique, so `first` names it.
pub proof fn lemma_first_is<T>(s: Seq<T>, p: spec_fn(T) -> bool, i: int)
    requires
        is_first(s, p, i),
    ensures
        first(s, p) == i,
        any(s, p),
{
    let k = first(s, p);
    assert(is_first(s, p, k));
    if k < i {
        assert(!p(s[k]));
    } else if i < k {
        assert(!p(s[i]));
    }
}

/// No element satisfying `p`, as an exec search reports it.
pub proof fn lemma_none<T>(s: Seq<T>, p: spec_fn(T) -> bool)
    requires
        forall|j: int| 0 <= j < s.len() ==> !p(#[trigger] s[j]),
    ensures
        !any(s, p),
{
}

/// Where some element satisfies `p`, a first one does.
pub proof fn lemma_exists_first<T>(s: Seq<T>, p: spec_fn(T) -> bool)
    requires
        any(s, p),
    ensures
        is_first(s, p, first(s, p)),
    decreases s.len(),
{
    let i = choose|j: int| 0 <= j < s.len() && p(#[trigger] s[j]);
    if p(s[0]) {
        assert(is_first(s, p, 0));
    } else {
        let t = s.subrange(1, s.len() as int);
        assert(t[i - 1] == s[i]);
        lemma_exists_first(t, p);
        let k = first(t, p);
        assert forall|j: int| 0 <= j < k + 1 implies !p(#[trigger] s[j]) by {
            if j > 0 {
                assert(s[j] == t[j - 1]);
            }
        }
        assert(is_first(s, p, k + 1));
    }
}

} // verus!
