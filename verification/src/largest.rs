//! Finding the largest element of a sequence.
//!
//! The scan is a linear pass that keeps the largest element seen so far and
//! replaces it only on a strictly greater element, so on ties the
//! first-seen element wins.

use vstd::prelude::*;
use vstd::relations::{sorted_by, total_ordering};
use vstd::std_specs::cmp::PartialOrdSpec;

verus! {

/// Error returned when the largest element of an empty sequence is requested.
#[derive(Clone, Copy, Debug, PartialEq, Eq, Structural)]
pub struct EmptyInputError;

/// `v` is the largest value of `s` (and occurs in it).
pub open spec fn is_largest_i32(s: Seq<i32>, v: i32) -> bool {
    &&& s.contains(v)
    &&& forall|j: int| 0 <= j < s.len() ==> s[j] <= v
}

/// Returns the largest element of a non-empty slice of `i32`.
pub fn largest_i32(list: &[i32]) -> (r: i32)
    requires
        list@.len() > 0,
    ensures
        is_largest_i32(list@, r),
{
    let mut largest: i32 = list[0];
    let mut idx: usize = 0;
    while idx < list.len()
        invariant
            0 < list@.len(),
            idx <= list@.len(),
            list@.contains(largest),
            forall|j: int| 0 <= j < idx ==> list@[j] <= largest,
        decreases list@.len() - idx,
    {
        let item = list[idx];
        if item > largest {
            largest = item;
        }
        idx += 1;
    }
    largest
}

/// `v` is the largest value of `s` (and occurs in it).
pub open spec fn is_largest_char(s: Seq<char>, v: char) -> bool {
    &&& s.contains(v)
    &&& forall|j: int| 0 <= j < s.len() ==> s[j] <= v
}

/// Returns the largest element of a non-empty slice of `char`.
pub fn largest_char(list: &[char]) -> (r: char)
    requires
        list@.len() > 0,
    ensures
        is_largest_char(list@, r),
{
    let mut largest: char = list[0];
    let mut idx: usize = 0;
    while idx < list.len()
        invariant
            0 < list@.len(),
            idx <= list@.len(),
            list@.contains(largest),
            forall|j: int| 0 <= j < idx ==> list@[j] <= largest,
        decreases list@.len() - idx,
    {
        let item = list[idx];
        if item > largest {
            largest = item;
        }
        idx += 1;
    }
    largest
}

/// The comparison `a > b` as the ordering specification of `T` states it.
pub open spec fn gt_spec<T: PartialOrd>(a: T, b: T) -> bool {
    a.partial_cmp_spec(&b) == Some(core::cmp::Ordering::Greater)
}

/// The comparison `a <= b` as the ordering specification of `T` states it.
pub open spec fn le_spec<T: PartialOrd>(a: T, b: T) -> bool {
    a.partial_cmp_spec(&b) matches Some(
        core::cmp::Ordering::Less
        | core::cmp::Ordering::Equal,
    )
}

/// The element a left-to-right scan of `s` keeps: it starts with the first
/// element and replaces the value kept so far only on a strictly greater
/// element, so on ties the first-seen element wins.
pub open spec fn scan_largest<T: PartialOrd>(s: Seq<T>) -> T
    recommends
        s.len() > 0,
    decreases s.len(),
{
    if s.len() <= 1 {
        s[0]
    } else {
        let prev = scan_largest(s.drop_last());
        if gt_spec(s.last(), prev) {
            s.last()
        } else {
            prev
        }
    }
}

/// `v` is, by the ordering specification of `T`, at least every element of
/// `s`, and occurs in `s`.
pub open spec fn is_largest_of<T: PartialOrd>(s: Seq<T>, v: T) -> bool {
    &&& s.contains(v)
    &&& forall|j: int| 0 <= j < s.len() ==> le_spec(#[trigger] s[j], v)
}

/// The ordering specification of `T` behaves as a total order: `a > b`
/// entails `b <= a`, its failure entails `a <= b`, and `<=` is transitive.
pub open spec fn ordering_consistent<T: PartialOrd>() -> bool {
    &&& forall|a: T, b: T| #[trigger] gt_spec(a, b) ==> le_spec(b, a)
    &&& forall|a: T, b: T| !(#[trigger] gt_spec(a, b)) ==> le_spec(a, b)
    &&& forall|a: T, b: T, c: T| #[trigger] le_spec(a, b) && #[trigger] le_spec(b, c)
        ==> le_spec(a, c)
}

/// The ordering specification of `T` tells values apart: two values that
/// compare at most as large as each other are equal.
pub open spec fn ordering_antisymmetric<T: PartialOrd>() -> bool {
    forall|a: T, b: T| #[trigger] le_spec(a, b) && #[trigger] le_spec(b, a) ==> a == b
}

/// Returns the largest element of a non-empty slice, for any comparable
/// element type. The result is always an element of the slice; whenever the
/// type's comparison operators agree with its ordering specification, the
/// result is exactly the element a first-seen-wins scan keeps.
pub fn largest_any<T: PartialOrd + Copy>(list: &[T]) -> (r: T)
    requires
        list@.len() > 0,
    ensures
        exists|i: int| 0 <= i < list@.len() && r == list@[i],
        T::obeys_partial_cmp_spec() ==> r == scan_largest(list@),
{
    let mut largest: T = list[0];
    let mut idx: usize = 1;
    while idx < list.len()
        invariant
            0 < list@.len(),
            1 <= idx <= list@.len(),
            exists|i: int| 0 <= i < idx && largest == list@[i],
            T::obeys_partial_cmp_spec() ==> largest == scan_largest(list@.take(idx as int)),
        decreases list@.len() - idx,
    {
        let item = list[idx];
        proof {
            assert(list@.take(idx + 1).drop_last() =~= list@.take(idx as int));
            assert(list@.take(idx + 1).last() == list@[idx as int]);
        }
        if item > largest {
            largest = item;
        }
        idx += 1;
    }
    proof {
        assert(list@.take(list@.len() as int) =~= list@);
    }
    largest
}

/// Returns the largest element of a slice, or `EmptyInputError` exactly when
/// the slice is empty.
pub fn max_of<T: PartialOrd + Copy>(list: &[T]) -> (r: Result<T, EmptyInputError>)
    ensures
        r is Err <==> list@.len() == 0,
        list@.len() > 0 ==> exists|i: int| 0 <= i < list@.len() && r == Ok::<T, EmptyInputError>(
            list@[i],
        ),
        T::obeys_partial_cmp_spec() && list@.len() > 0 ==> r == Ok::<T, EmptyInputError>(
            scan_largest(list@),
        ),
{
    if list.len() == 0 {
        Err(EmptyInputError)
    } else {
        Ok(largest_any(list))
    }
}

/// Whenever the ordering specification of `T` behaves as a total order, the
/// element the first-seen-wins scan keeps is a largest element of the
/// sequence.
pub proof fn lemma_scan_largest_is_largest<T: PartialOrd>(s: Seq<T>)
    requires
        s.len() > 0,
        ordering_consistent::<T>(),
    ensures
        is_largest_of(s, scan_largest(s)),
    decreases s.len(),
{
    if s.len() == 1 {
        assert(s.contains(s[0]));
        lemma_le_spec_refl(s[0]);
    } else {
        let butlast = s.drop_last();
        lemma_scan_largest_is_largest(butlast);
        let prev = scan_largest(butlast);
        assert(butlast.contains(prev));
        let i = choose|i: int| 0 <= i < butlast.len() && butlast[i] == prev;
        assert(s[i] == prev);
        assert(s.contains(prev));
        assert(s.contains(s.last()));
        if gt_spec(s.last(), prev) {
            assert(le_spec(prev, s.last()));
            assert forall|j: int| 0 <= j < s.len() - 1 implies le_spec(
                #[trigger] s[j],
                s.last(),
            ) by {
                assert(le_spec(butlast[j], prev));
                assert(s[j] == butlast[j]);
            }
            lemma_le_spec_refl(s.last());
        } else {
            assert(le_spec(s.last(), prev));
            assert forall|j: int| 0 <= j < s.len() implies le_spec(#[trigger] s[j], prev) by {
                if j < s.len() - 1 {
                    assert(le_spec(butlast[j], prev));
                    assert(s[j] == butlast[j]);
                }
            }
        }
    }
}

/// By a consistent ordering specification every value is at most itself.
proof fn lemma_le_spec_refl<T: PartialOrd>(x: T)
    requires
        ordering_consistent::<T>(),
    ensures
        le_spec(x, x),
{
    if gt_spec(x, x) {
    }
}

/// The largest value of a non-empty sequence is the head of the sequence
/// sorted in descending order: `t` here is any descending rearrangement of
/// `s`.
pub proof fn lemma_largest_is_head_of_descending_sort<T: PartialOrd>(s: Seq<T>, t: Seq<T>, v: T)
    requires
        ordering_consistent::<T>(),
        ordering_antisymmetric::<T>(),
        s.len() > 0,
        is_largest_of(s, v),
        t.to_multiset() == s.to_multiset(),
        sorted_by(t, |a: T, b: T| le_spec(b, a)),
    ensures
        t.first() == v,
{
    broadcast use vstd::seq_lib::group_to_multiset_ensures;

    assert(s.len() == s.to_multiset().len());
    assert(t.len() == t.to_multiset().len());
    assert(t.len() == s.len());
    assert(t.contains(t[0]));
    assert(s.contains(t[0])) by {
        assert(t.to_multiset().count(t[0]) > 0);
    }
    assert(le_spec(t[0], v));
    assert(t.contains(v)) by {
        assert(s.to_multiset().count(v) > 0);
    }
    let k = choose|k: int| 0 <= k < t.len() && t[k] == v;
    if k > 0 {
        let geq = |a: T, b: T| le_spec(b, a);
        assert(geq(t[0], t[k]));
        assert(le_spec(v, t[0]));
    } else {
        assert(le_spec(v, t[0]));
    }
}

/// The largest value of a sequence depends only on which elements occur in
/// it, not on their order: two sequences that are permutations of one
/// another have the same largest value.
pub proof fn lemma_largest_permutation_invariant<T: PartialOrd>(
    s1: Seq<T>,
    s2: Seq<T>,
    v1: T,
    v2: T,
)
    requires
        ordering_antisymmetric::<T>(),
        s1.to_multiset() == s2.to_multiset(),
        is_largest_of(s1, v1),
        is_largest_of(s2, v2),
    ensures
        v1 == v2,
{
    broadcast use vstd::seq_lib::group_to_multiset_ensures;

    assert(s2.contains(v1)) by {
        assert(s1.to_multiset().count(v1) > 0);
    }
    assert(s1.contains(v2)) by {
        assert(s2.to_multiset().count(v2) > 0);
    }
    let i = choose|i: int| 0 <= i < s2.len() && s2[i] == v1;
    let j = choose|j: int| 0 <= j < s1.len() && s1[j] == v2;
    assert(le_spec(v1, v2));
    assert(le_spec(v2, v1));
}

/// The ordering specification of `i32` is the usual order on integers.
pub proof fn lemma_i32_ordering_lawful()
    ensures
        ordering_consistent::<i32>(),
        ordering_antisymmetric::<i32>(),
        forall|a: i32, b: i32| #[trigger] le_spec(a, b) <==> a <= b,
        forall|a: i32, b: i32| #[trigger] gt_spec(a, b) <==> a > b,
{
}

/// For `i32`, the element the first-seen-wins scan keeps is the largest
/// value of the sequence.
pub proof fn lemma_i32_scan_largest_is_largest(s: Seq<i32>)
    requires
        s.len() > 0,
    ensures
        is_largest_i32(s, scan_largest(s)),
{
    lemma_i32_ordering_lawful();
    lemma_scan_largest_is_largest(s);
}

/// The largest value of a non-empty `i32` sequence is the head of the
/// sequence sorted in descending order.
pub proof fn lemma_i32_largest_is_head_of_descending_sort(s: Seq<i32>, v: i32)
    requires
        s.len() > 0,
        is_largest_i32(s, v),
    ensures
        s.sort_by(|a: i32, b: i32| a >= b).first() == v,
{
    lemma_i32_ordering_lawful();
    let geq = |a: i32, b: i32| a >= b;
    let t = s.sort_by(geq);
    assert(total_ordering(geq));
    s.lemma_sort_by_ensures(geq);
    assert(sorted_by(t, |a: i32, b: i32| le_spec(b, a))) by {
        assert forall|i: int, j: int| 0 <= i < j < t.len() implies (|a: i32, b: i32|
            le_spec(b, a))(t[i], t[j]) by {
            assert(geq(t[i], t[j]));
        }
    }
    assert(s.to_multiset() =~= t.to_multiset());
    lemma_largest_is_head_of_descending_sort(s, t, v);
}

/// The largest value of an `i32` sequence is invariant under permutation of
/// the input order.
pub proof fn lemma_i32_largest_permutation_invariant(s1: Seq<i32>, s2: Seq<i32>, v1: i32, v2: i32)
    requires
        s1.to_multiset() == s2.to_multiset(),
        is_largest_i32(s1, v1),
        is_largest_i32(s2, v2),
    ensures
        v1 == v2,
{
    lemma_i32_ordering_lawful();
    lemma_largest_permutation_invariant(s1, s2, v1, v2);
}

} // verus!
