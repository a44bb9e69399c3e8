use vstd::prelude::*;

use std::cmp::Ordering;
use vstd::laws_cmp::{
    obeys_cmp, obeys_cmp_ord, obeys_cmp_partial_ord, obeys_partial_cmp_spec_properties,
};
use vstd::laws_eq::{obeys_concrete_eq, obeys_eq_spec_properties};
use vstd::std_specs::cmp::{OrdSpec, PartialEqSpec, PartialOrdSpec};

verus! {

/// Every element of `s` is ordered before every later one by `le`.
pub open spec fn sorted_by<T>(s: Seq<T>, le: spec_fn(T, T) -> bool) -> bool {
    forall|i: int, j: int| 0 <= i < j < s.len() ==> #[trigger] le(s[i], s[j])
}

/// The elements of `s` that `le` ranks level with `x`, in their order in `s`.
pub open spec fn level_with<T>(s: Seq<T>, le: spec_fn(T, T) -> bool, x: T) -> Seq<T> {
    s.filter(|y: T| le(y, x) && le(x, y))
}

/// `after` is `before` sorted by `le`, with level elements kept in the order
/// they had.
pub open spec fn stably_sorted<T>(before: Seq<T>, after: Seq<T>, le: spec_fn(T, T) -> bool) -> bool {
    &&& sorted_by(after, le)
    &&& after.to_multiset() == before.to_multiset()
    &&& forall|x: T| #[trigger] level_with(after, le, x) == level_with(before, le, x)
}

/// `after` is `before` sorted by `le`, level elements in any order.
pub open spec fn sorted_permutation<T>(before: Seq<T>, after: Seq<T>, le: spec_fn(T, T) -> bool) -> bool {
    &&& sorted_by(after, le)
    &&& after.to_multiset() == before.to_multiset()
}

/// `le` ranks every element level with itself.
pub open spec fn is_reflexive<T>(le: spec_fn(T, T) -> bool) -> bool {
    forall|a: T| #[trigger] le(a, a)
}

/// `le` ranks any two elements, and does so transitively.
pub open spec fn is_total_preorder<T>(le: spec_fn(T, T) -> bool) -> bool {
    &&& forall|a: T, b: T| #[trigger] le(a, b) || le(b, a)
    &&& forall|a: T, b: T, c: T| #[trigger] le(a, b) && #[trigger] le(b, c) ==> le(a, c)
}

/// The order of `T` itself: `a` does not compare greater than `b`.
pub open spec fn natural_le<T: Ord>() -> spec_fn(T, T) -> bool {
    |a: T, b: T| a.cmp_spec(&b) != Ordering::Greater
}

/// The order that `compare` gives: no call of it on `a` and `b` returns
/// `Greater`.
pub open spec fn comparator_le<T, F: FnMut(&T, &T) -> Ordering>(compare: F) -> spec_fn(T, T) -> bool {
    |a: T, b: T|
        forall|o: Ordering| #[trigger] compare.ensures((&a, &b), o) ==> o != Ordering::Greater
}

/// The order of the keys that `f` gives: the key of `a` does not compare
/// greater than the key of `b`.
pub open spec fn key_le<T, K: Ord, F: FnMut(&T) -> K>(f: F) -> spec_fn(T, T) -> bool {
    |a: T, b: T|
        forall|ka: K, kb: K| #[trigger] f.ensures((&a,), ka) && #[trigger] f.ensures((&b,), kb)
            ==> ka.cmp_spec(&kb) != Ordering::Greater
}

/// `o` read from the other side.
pub open spec fn reversed(o: Ordering) -> Ordering {
    match o {
        Ordering::Less => Ordering::Greater,
        Ordering::Equal => Ordering::Equal,
        Ordering::Greater => Ordering::Less,
    }
}

/// `compare` may be called on any two elements, answers each pair one way,
/// answers a pair and its swap in reverse, and never puts `a` after `c`
/// where it puts neither `a` after `b` nor `b` after `c`.
pub open spec fn is_total_order_fn<T, F: FnMut(&T, &T) -> Ordering>(compare: F) -> bool {
    &&& forall|a: &T, b: &T| #[trigger] compare.requires((a, b))
    &&& forall|a: &T, b: &T, o1: Ordering, o2: Ordering|
        #[trigger] compare.ensures((a, b), o1) && #[trigger] compare.ensures((a, b), o2) ==> o1
            == o2
    &&& forall|a: &T, b: &T, o1: Ordering, o2: Ordering|
        #[trigger] compare.ensures((a, b), o1) && #[trigger] compare.ensures((b, a), o2) ==> o1
            == reversed(o2)
    &&& forall|a: &T, b: &T, c: &T, o1: Ordering, o2: Ordering, o3: Ordering|
        #[trigger] compare.ensures((a, b), o1) && #[trigger] compare.ensures((b, c), o2)
            && #[trigger] compare.ensures((a, c), o3) && o1 != Ordering::Greater && o2
            != Ordering::Greater ==> o3 != Ordering::Greater
}

/// `f` may be called on any element and gives each element one key.
pub open spec fn is_key_fn<T, K, F: FnMut(&T) -> K>(f: F) -> bool {
    &&& forall|a: &T| #[trigger] f.requires((a,))
    &&& forall|a: &T, k1: K, k2: K|
        #[trigger] f.ensures((a,), k1) && #[trigger] f.ensures((a,), k2) ==> k1 == k2
}

/// Where `T`'s order obeys the laws of `Ord`, it ranks any two elements,
/// transitively.
pub proof fn lemma_natural_le_total<T: Ord>()
    requires
        obeys_cmp::<T>(),
    ensures
        is_total_preorder(natural_le::<T>()),
        is_reflexive(natural_le::<T>()),
{
    reveal(obeys_partial_cmp_spec_properties);
    reveal(obeys_cmp_partial_ord);
    reveal(obeys_cmp_ord);
    reveal(obeys_eq_spec_properties);
    let le = natural_le::<T>();
    assert forall|a: T, b: T| #[trigger] le(a, b) || le(b, a) by {
        assert(a.partial_cmp_spec(&b) == Some(a.cmp_spec(&b)));
        assert(b.partial_cmp_spec(&a) == Some(b.cmp_spec(&a)));
    }
    assert forall|a: T| #[trigger] le(a, a) by {
        assert(le(a, a) || le(a, a));
    }
    assert forall|a: T, b: T, c: T| #[trigger] le(a, b) && #[trigger] le(b, c) implies le(a, c) by {
        assert(a.partial_cmp_spec(&b) == Some(a.cmp_spec(&b)));
        assert(b.partial_cmp_spec(&a) == Some(b.cmp_spec(&a)));
        assert(b.partial_cmp_spec(&c) == Some(b.cmp_spec(&c)));
        assert(c.partial_cmp_spec(&b) == Some(c.cmp_spec(&b)));
        assert(a.partial_cmp_spec(&c) == Some(a.cmp_spec(&c)));
        assert(c.partial_cmp_spec(&a) == Some(c.cmp_spec(&a)));
        if a.cmp_spec(&c) == Ordering::Greater {
            if a.cmp_spec(&b) == Ordering::Equal {
                assert(a.eq_spec(&b));
                if b.cmp_spec(&c) == Ordering::Equal {
                    assert(b.eq_spec(&c));
                    assert(a.eq_spec(&c));
                } else {
                    assert(c.partial_cmp_spec(&b) == Some(Ordering::Greater));
                }
            } else {
                assert(a.partial_cmp_spec(&b) == Some(Ordering::Less));
                if b.cmp_spec(&c) == Ordering::Equal {
                    assert(b.eq_spec(&c));
                    assert(c.eq_spec(&b));
                    assert(c.partial_cmp_spec(&a) == Some(Ordering::Less));
                } else {
                    assert(b.partial_cmp_spec(&c) == Some(Ordering::Less));
                }
            }
        }
    }
}

/// The order that a total order function gives ranks every element level
/// with itself.
pub proof fn lemma_comparator_le_reflexive<T, F: FnMut(&T, &T) -> Ordering>(compare: F)
    requires
        is_total_order_fn(compare),
    ensures
        is_reflexive(comparator_le(compare)),
{
    let le = comparator_le(compare);
    assert forall|a: T| #[trigger] le(a, a) by {
        assert forall|o: Ordering| #[trigger] compare.ensures((&a, &a), o) implies o
            != Ordering::Greater by {
            assert(o == reversed(o));
        }
    }
}

/// The order of the keys that a key function gives ranks every element
/// level with itself, where the keys' order obeys the laws of `Ord`.
pub proof fn lemma_key_le_reflexive<T, K: Ord, F: FnMut(&T) -> K>(f: F)
    requires
        obeys_cmp::<K>(),
        is_key_fn(f),
    ensures
        is_reflexive(key_le(f)),
{
    lemma_natural_le_total::<K>();
    let le = key_le(f);
    let kle = natural_le::<K>();
    assert forall|a: T| #[trigger] le(a, a) by {
        assert forall|ka: K, kb: K| #[trigger] f.ensures((&a,), ka) && #[trigger] f.ensures(
            (&a,),
            kb,
        ) implies ka.cmp_spec(&kb) != Ordering::Greater by {
            assert(ka == kb);
            assert(kle(ka, ka));
        }
    }
}

/// How `level_with` takes the last element of a nonempty sequence.
proof fn lemma_level_with_last<T>(s: Seq<T>, le: spec_fn(T, T) -> bool, x: T)
    requires
        s.len() > 0,
    ensures
        level_with(s, le, x) == if le(s.last(), x) && le(x, s.last()) {
            level_with(s.drop_last(), le, x).push(s.last())
        } else {
            level_with(s.drop_last(), le, x)
        },
{
    reveal(Seq::filter);
}

/// The last element of a nonempty sequence is level with itself, so it is
/// the last element of its level.
proof fn lemma_last_in_own_level<T>(s: Seq<T>, le: spec_fn(T, T) -> bool)
    requires
        s.len() > 0,
        is_reflexive(le),
    ensures
        level_with(s, le, s.last()).len() > 0,
        level_with(s, le, s.last()).last() == s.last(),
{
    assert(le(s.last(), s.last()));
    lemma_level_with_last(s, le, s.last());
}

/// A stable sort of a sequence that is already sorted leaves it as it was.
pub proof fn lemma_stable_sort_keeps_sorted<T>(
    before: Seq<T>,
    after: Seq<T>,
    le: spec_fn(T, T) -> bool,
)
    requires
        is_reflexive(le),
        sorted_by(before, le),
        stably_sorted(before, after, le),
    ensures
        after == before,
    decreases before.len(),
{
    broadcast use vstd::seq_lib::group_filter_ensures;

    if before.len() == 0 || after.len() == 0 {
        if after.len() > 0 {
            lemma_last_in_own_level(after, le);
            assert(level_with(before, le, after.last()) == level_with(after, le, after.last()));
        }
        if before.len() > 0 {
            lemma_last_in_own_level(before, le);
            assert(level_with(before, le, before.last()) == level_with(after, le, before.last()));
        }
        assert(after =~= before);
    } else {
        let a = before.last();
        let b = after.last();
        lemma_last_in_own_level(before, le);
        lemma_last_in_own_level(after, le);
        // `a` is somewhere in `after`, so it is not ranked above `b`.
        let la = level_with(after, le, a);
        assert(la == level_with(before, le, a));
        assert(la.contains(a)) by {
            assert(la.len() > 0);
            assert(la[la.len() - 1] == a);
        }
        after.lemma_filter_contains_rev(|y: T| le(y, a) && le(a, y), a);
        let j = choose|j: int| 0 <= j < after.len() && after[j] == a;
        if j < after.len() - 1 {
            assert(le(after[j], after[after.len() - 1]));
        }
        assert(le(a, b));
        // `b` is somewhere in `before`, so it is not ranked above `a`.
        let lb = level_with(before, le, b);
        assert(lb == level_with(after, le, b));
        assert(lb.contains(b)) by {
            assert(lb.len() > 0);
            assert(lb[lb.len() - 1] == b);
        }
        before.lemma_filter_contains_rev(|y: T| le(y, b) && le(b, y), b);
        let i = choose|i: int| 0 <= i < before.len() && before[i] == b;
        if i < before.len() - 1 {
            assert(le(before[i], before[before.len() - 1]));
        }
        assert(le(b, a));
        // So `b` is the last of the level of `a` in `after`.
        lemma_level_with_last(after, le, a);
        assert(a == b);
        let bd = before.drop_last();
        let ad = after.drop_last();
        assert forall|x: T| #[trigger] level_with(ad, le, x) == level_with(bd, le, x) by {
            lemma_level_with_last(before, le, x);
            lemma_level_with_last(after, le, x);
            assert(level_with(after, le, x) == level_with(before, le, x));
            if le(a, x) && le(x, a) {
                assert(level_with(ad, le, x) =~= level_with(after, le, x).drop_last());
                assert(level_with(bd, le, x) =~= level_with(before, le, x).drop_last());
            }
        }
        assert(ad.to_multiset() == bd.to_multiset()) by {
            broadcast use vstd::seq_lib::group_to_multiset_ensures;

            assert(before =~= bd.push(a));
            assert(after =~= ad.push(a));
            assert(ad.to_multiset() =~= after.to_multiset().remove(a));
            assert(bd.to_multiset() =~= before.to_multiset().remove(a));
        }
        lemma_stable_sort_keeps_sorted(bd, ad, le);
        assert(after =~= ad.push(b));
        assert(before =~= bd.push(a));
    }
}

/// Two stable sorts of one sequence by one total preorder give the same
/// result: a stable sort is determined by its input and its order.
pub proof fn lemma_stable_sort_unique<T>(
    before: Seq<T>,
    first: Seq<T>,
    second: Seq<T>,
    le: spec_fn(T, T) -> bool,
)
    requires
        is_reflexive(le),
        stably_sorted(before, first, le),
        stably_sorted(before, second, le),
    ensures
        first == second,
{
    assert forall|x: T| #[trigger] level_with(second, le, x) == level_with(first, le, x) by {
        assert(level_with(second, le, x) == level_with(before, le, x));
        assert(level_with(first, le, x) == level_with(before, le, x));
    }
    lemma_stable_sort_keeps_sorted(first, second, le);
}

/// Sorting by `T`'s order a sequence that is already so sorted leaves it as
/// it was.
pub proof fn lemma_sorted_input_unchanged<T: Ord>(before: Seq<T>, after: Seq<T>)
    requires
        obeys_cmp::<T>(),
        sorted_by(before, natural_le::<T>()),
        stably_sorted(before, after, natural_le::<T>()),
    ensures
        after == before,
{
    lemma_natural_le_total::<T>();
    lemma_stable_sort_keeps_sorted(before, after, natural_le::<T>());
}

/// Sorting by a total order function a sequence that is already so sorted
/// leaves it as it was.
pub proof fn lemma_sorted_input_unchanged_by<T, F: FnMut(&T, &T) -> Ordering>(
    before: Seq<T>,
    after: Seq<T>,
    compare: F,
)
    requires
        is_total_order_fn(compare),
        sorted_by(before, comparator_le(compare)),
        stably_sorted(before, after, comparator_le(compare)),
    ensures
        after == before,
{
    lemma_comparator_le_reflexive(compare);
    lemma_stable_sort_keeps_sorted(before, after, comparator_le(compare));
}

/// Sorting by key a sequence that is already sorted by that key leaves it as
/// it was.
pub proof fn lemma_sorted_input_unchanged_by_key<T, K: Ord, F: FnMut(&T) -> K>(
    before: Seq<T>,
    after: Seq<T>,
    f: F,
)
    requires
        obeys_cmp::<K>(),
        is_key_fn(f),
        sorted_by(before, key_le(f)),
        stably_sorted(before, after, key_le(f)),
    ensures
        after == before,
{
    lemma_key_le_reflexive(f);
    lemma_stable_sort_keeps_sorted(before, after, key_le(f));
}

/// `le` ranks two elements level only where they are the same element.
pub open spec fn is_antisymmetric<T>(le: spec_fn(T, T) -> bool) -> bool {
    forall|a: T, b: T| #[trigger] le(a, b) && le(b, a) ==> a == b
}

/// Under an antisymmetric order the level of `x` in `s` is `x` repeated as
/// often as `s` holds it.
proof fn lemma_level_is_copies<T>(s: Seq<T>, le: spec_fn(T, T) -> bool, x: T)
    requires
        is_reflexive(le),
        is_antisymmetric(le),
    ensures
        level_with(s, le, x) =~= Seq::new(s.to_multiset().count(x), |_i: int| x),
    decreases s.len(),
{
    broadcast use vstd::seq_lib::group_to_multiset_ensures;

    if s.len() == 0 {
        reveal(Seq::filter);
        assert(s.to_multiset() =~= vstd::multiset::Multiset::empty());
    } else {
        let d = s.drop_last();
        lemma_level_is_copies(d, le, x);
        lemma_level_with_last(s, le, x);
        assert(s =~= d.push(s.last()));
        assert(s.to_multiset() =~= d.to_multiset().insert(s.last()));
        assert(le(x, x));
    }
}

/// Under an antisymmetric order, a sort that may reorder level elements
/// still leaves an already sorted sequence as it was.
pub proof fn lemma_sort_keeps_sorted<T>(before: Seq<T>, after: Seq<T>, le: spec_fn(T, T) -> bool)
    requires
        is_reflexive(le),
        is_antisymmetric(le),
        sorted_by(before, le),
        sorted_permutation(before, after, le),
    ensures
        after == before,
{
    assert forall|x: T| #[trigger] level_with(after, le, x) == level_with(before, le, x) by {
        lemma_level_is_copies(after, le, x);
        lemma_level_is_copies(before, le, x);
    }
    lemma_stable_sort_keeps_sorted(before, after, le);
}

/// Sorting by `T`'s order, where equal values are identical, a sequence
/// that is already so sorted leaves it as it was, even where the sort may
/// reorder equal elements.
pub proof fn lemma_sorted_input_unchanged_unstable<T: Ord>(before: Seq<T>, after: Seq<T>)
    requires
        obeys_cmp::<T>(),
        obeys_concrete_eq::<T>(),
        sorted_by(before, natural_le::<T>()),
        sorted_permutation(before, after, natural_le::<T>()),
    ensures
        after == before,
{
    reveal(obeys_partial_cmp_spec_properties);
    reveal(obeys_cmp_partial_ord);
    reveal(obeys_cmp_ord);
    reveal(obeys_concrete_eq);
    lemma_natural_le_total::<T>();
    let le = natural_le::<T>();
    assert forall|a: T, b: T| #[trigger] le(a, b) && le(b, a) implies a == b by {
        assert(a.partial_cmp_spec(&b) == Some(a.cmp_spec(&b)));
        assert(b.partial_cmp_spec(&a) == Some(b.cmp_spec(&a)));
        assert(a.eq_spec(&b));
    }
    lemma_sort_keeps_sorted(before, after, le);
}

} // verus!
