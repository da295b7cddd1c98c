//! Sums of an integer-valued weight over a sequence, and the facts the
//! rest of the crate needs about them: a sum is invariant under
//! permutation, splits pointwise, ignores zero-weight tails, and stays
//! divisible when every summand is.

use vstd::prelude::*;

verus! {

/// The sum of `f` over the elements of `s`, in order.
pub open spec fn sum_by<T>(s: Seq<T>, f: spec_fn(T) -> int) -> int
    decreases s.len(),
{
    if s.len() == 0 {
        0
    } else {
        sum_by(s.drop_last(), f) + f(s.last())
    }
}

/// Appending one element adds its weight.
pub proof fn lemma_sum_by_push<T>(s: Seq<T>, f: spec_fn(T) -> int, x: T)
    ensures
        sum_by(s.push(x), f) == sum_by(s, f) + f(x),
{
    assert(s.push(x).drop_last() =~= s);
    assert(s.push(x).last() == x);
}

/// Removing one element subtracts its weight.
pub proof fn lemma_sum_by_remove<T>(s: Seq<T>, f: spec_fn(T) -> int, i: int)
    requires
        0 <= i < s.len(),
    ensures
        sum_by(s.remove(i), f) == sum_by(s, f) - f(s[i]),
    decreases s.len(),
{
    if i == s.len() - 1 {
        assert(s.remove(i) =~= s.drop_last());
    } else {
        let t = s.drop_last();
        assert(s.remove(i).drop_last() =~= t.remove(i));
        assert(s.remove(i).last() == s.last());
        lemma_sum_by_remove(t, f, i);
    }
}

/// The sum depends only on the multiset of elements, not on their order.
pub proof fn lemma_sum_by_permutation<T>(s1: Seq<T>, s2: Seq<T>, f: spec_fn(T) -> int)
    requires
        s1.to_multiset() == s2.to_multiset(),
    ensures
        sum_by(s1, f) == sum_by(s2, f),
    decreases s1.len(),
{
    broadcast use vstd::seq_lib::group_to_multiset_ensures;

    if s1.len() == 0 {
        assert(s2.len() == s2.to_multiset().len());
        assert(s2 =~= Seq::<T>::empty());
    } else {
        let x = s1.last();
        assert(s1.contains(x));
        assert(s1.to_multiset().count(x) > 0);
        assert(s2.contains(x));
        let i = choose|i: int| 0 <= i < s2.len() && s2[i] == x;
        assert(s1.remove(s1.len() - 1) =~= s1.drop_last());
        assert(s1.drop_last().to_multiset() == s1.to_multiset().remove(x));
        assert(s2.remove(i).to_multiset() == s2.to_multiset().remove(x));
        lemma_sum_by_permutation(s1.drop_last(), s2.remove(i), f);
        lemma_sum_by_remove(s2, f, i);
    }
}

/// A tail of zero-weight elements contributes nothing.
pub proof fn lemma_sum_by_zero_tail<T>(s: Seq<T>, f: spec_fn(T) -> int, n: int)
    requires
        0 <= n <= s.len(),
        forall|k: int| n <= k < s.len() ==> f(s[k]) == 0,
    ensures
        sum_by(s, f) == sum_by(s.take(n), f),
    decreases s.len(),
{
    if s.len() == n {
        assert(s.take(n) =~= s);
    } else {
        assert(f(s.last()) == 0);
        assert(s.drop_last().take(n) =~= s.take(n));
        lemma_sum_by_zero_tail(s.drop_last(), f, n);
    }
}

/// A pointwise split of the weight splits the sum.
pub proof fn lemma_sum_by_split<T>(
    s: Seq<T>,
    f: spec_fn(T) -> int,
    g: spec_fn(T) -> int,
    h: spec_fn(T) -> int,
)
    requires
        forall|k: int| 0 <= k < s.len() ==> f(s[k]) == g(s[k]) + h(s[k]),
    ensures
        sum_by(s, f) == sum_by(s, g) + sum_by(s, h),
    decreases s.len(),
{
    if s.len() > 0 {
        lemma_sum_by_split(s.drop_last(), f, g, h);
    }
}

/// Sequences of equal length whose weights agree position by position
/// have equal sums.
pub proof fn lemma_sum_by_pointwise<T, U>(
    s1: Seq<T>,
    s2: Seq<U>,
    f: spec_fn(T) -> int,
    g: spec_fn(U) -> int,
)
    requires
        s1.len() == s2.len(),
        forall|k: int| 0 <= k < s1.len() ==> #[trigger] f(s1[k]) == g(s2[k]),
    ensures
        sum_by(s1, f) == sum_by(s2, g),
    decreases s1.len(),
{
    if s1.len() > 0 {
        assert(f(s1[s1.len() - 1]) == g(s2[s2.len() - 1]));
        lemma_sum_by_pointwise(s1.drop_last(), s2.drop_last(), f, g);
    }
}

/// A sum of multiples of `m` is a multiple of `m`.
pub proof fn lemma_sum_by_mod_zero<T>(s: Seq<T>, f: spec_fn(T) -> int, m: int)
    requires
        m > 0,
        forall|k: int| 0 <= k < s.len() ==> f(s[k]) % m == 0,
    ensures
        sum_by(s, f) % m == 0,
    decreases s.len(),
{
    vstd::arithmetic::div_mod::lemma_small_mod(0nat, m as nat);
    if s.len() == 0 {
    } else {
        lemma_sum_by_mod_zero(s.drop_last(), f, m);
        assert(f(s[s.len() - 1]) % m == 0);
        assert(s.last() == s[s.len() - 1]);
        vstd::arithmetic::div_mod::lemma_add_mod_noop(sum_by(s.drop_last(), f), f(s.last()), m);
    }
}

/// A sum of weights between `0` and `c` lies between `0` and `c * s.len()`.
pub proof fn lemma_sum_by_bounds<T>(s: Seq<T>, f: spec_fn(T) -> int, c: int)
    requires
        forall|k: int| 0 <= k < s.len() ==> 0 <= #[trigger] f(s[k]) <= c,
    ensures
        0 <= sum_by(s, f) <= c * s.len(),
    decreases s.len(),
{
    if s.len() == 0 {
    } else {
        lemma_sum_by_bounds(s.drop_last(), f, c);
        let n = s.len() as int;
        assert(s.drop_last().len() == n - 1);
        assert(0 <= f(s[n - 1]) <= c);
        assert(s.last() == s[n - 1]);
        assert(c * n == c * (n - 1) + c) by (nonlinear_arith);
    }
}

/// A prefix of a nonnegative-weight sum is at most the whole sum.
pub proof fn lemma_sum_by_prefix_le<T>(s: Seq<T>, f: spec_fn(T) -> int, n: int)
    requires
        0 <= n <= s.len(),
        forall|k: int| 0 <= k < s.len() ==> #[trigger] f(s[k]) >= 0,
    ensures
        sum_by(s.take(n), f) <= sum_by(s, f),
    decreases s.len(),
{
    if s.len() == n {
        assert(s.take(n) =~= s);
    } else {
        assert(f(s.last()) >= 0);
        assert(s.drop_last().take(n) =~= s.take(n));
        lemma_sum_by_prefix_le(s.drop_last(), f, n);
    }
}

} // verus!
