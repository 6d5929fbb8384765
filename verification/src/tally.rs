//! Counting the entries of a sequence that satisfy a predicate.
use vstd::prelude::*;

verus! {

/// The number of entries of `s` that satisfy `p`.
pub open spec fn tally<T>(s: Seq<T>, p: spec_fn(T) -> bool) -> nat
    decreases s.len(),
{
    if s.len() == 0 {
        0
    } else {
        tally(s.drop_last(), p) + if p(s.last()) { 1nat } else { 0nat }
    }
}

/// A tally never exceeds the length of the sequence.
pub proof fn lemma_tally_bounded<T>(s: Seq<T>, p: spec_fn(T) -> bool)
    ensures
        tally(s, p) <= s.len(),
    decreases s.len(),
{
    if s.len() > 0 {
        lemma_tally_bounded(s.drop_last(), p);
    }
}

/// Replacing the entry at `i` moves the tally by the difference between the
/// new entry and the old one.
pub proof fn lemma_tally_update<T>(s: Seq<T>, i: int, x: T, p: spec_fn(T) -> bool)
    requires
        0 <= i < s.len(),
    ensures
        tally(s.update(i, x), p) + (if p(s[i]) { 1nat } else { 0nat })
            == tally(s, p) + (if p(x) { 1nat } else { 0nat }),
    decreases s.len(),
{
    let t = s.update(i, x);
    if i == s.len() - 1 {
        assert(t.drop_last() =~= s.drop_last());
    } else {
        lemma_tally_update(s.drop_last(), i, x, p);
        assert(t.drop_last() =~= s.drop_last().update(i, x));
    }
}

/// The tally is zero exactly when no entry satisfies the predicate.
pub proof fn lemma_tally_zero<T>(s: Seq<T>, p: spec_fn(T) -> bool)
    ensures
        tally(s, p) == 0 <==> forall|i: int| 0 <= i < s.len() ==> !p(#[trigger] s[i]),
    decreases s.len(),
{
    if s.len() > 0 {
        let front = s.drop_last();
        lemma_tally_zero(front, p);
        if tally(s, p) == 0 {
            assert forall|i: int| 0 <= i < s.len() implies !p(#[trigger] s[i]) by {
                if i < s.len() - 1 {
                    assert(front[i] == s[i]);
                }
            }
        } else if tally(front, p) != 0 {
            let i = choose|i: int| 0 <= i < front.len() && p(#[trigger] front[i]);
            assert(s[i] == front[i]);
        } else {
            assert(p(s[s.len() - 1]));
        }
    }
}

/// The tally equals the length exactly when every entry satisfies the
/// predicate.
pub proof fn lemma_tally_full<T>(s: Seq<T>, p: spec_fn(T) -> bool)
    ensures
        tally(s, p) == s.len() <==> forall|i: int| 0 <= i < s.len() ==> p(#[trigger] s[i]),
    decreases s.len(),
{
    if s.len() > 0 {
        let front = s.drop_last();
        lemma_tally_full(front, p);
        lemma_tally_bounded(front, p);
        if tally(s, p) == s.len() {
            assert forall|i: int| 0 <= i < s.len() implies p(#[trigger] s[i]) by {
                if i < s.len() - 1 {
                    assert(front[i] == s[i]);
                }
            }
        } else if tally(front, p) != front.len() {
            let i = choose|i: int| 0 <= i < front.len() && !p(#[trigger] front[i]);
            assert(s[i] == front[i]);
        } else {
            assert(!p(s[s.len() - 1]));
        }
    }
}

/// Two predicates that exclude each other split their union: the entries
/// that satisfy either are those that satisfy the one plus those that
/// satisfy the other.
pub proof fn lemma_tally_split<T>(
    s: Seq<T>,
    p: spec_fn(T) -> bool,
    q: spec_fn(T) -> bool,
    both: spec_fn(T) -> bool,
)
    requires
        forall|x: T| !(#[trigger] p(x) && q(x)),
        forall|x: T| #[trigger] both(x) <==> p(x) || q(x),
    ensures
        tally(s, both) == tally(s, p) + tally(s, q),
    decreases s.len(),
{
    if s.len() > 0 {
        lemma_tally_split(s.drop_last(), p, q, both);
        let x = s.last();
        assert(both(x) <==> p(x) || q(x));
        assert(!(p(x) && q(x)));
    }
}

} // verus!
