use vstd::prelude::*;

use std::cmp::Ordering;
use std::time::{Duration, Instant};
use vstd::laws_cmp::obeys_cmp;

use crate::budget::{lemma_nap_within_target, nap_for, target_nanos};
use crate::order::{
    comparator_le, is_key_fn, is_total_order_fn, key_le, natural_le, sorted_permutation,
    stably_sorted,
};
use crate::span::{Span, NANOS_PER_SEC};

verus! {

#[verifier::external_type_specification]
#[verifier::external_body]
pub struct ExInstant(Instant);

/// Relies on `Instant::now`: a reading of the monotonic clock.
pub assume_specification[ Instant::now ]() -> Instant;

/// Relies on `Instant::elapsed`: the time passed since a reading, on the
/// monotonic clock.
pub assume_specification[ Instant::elapsed ](i: &Instant) -> Duration;

/// Relies on `Duration::as_secs`: the whole seconds of a duration.
pub assume_specification[ Duration::as_secs ](d: &Duration) -> u64;

/// Relies on `Duration::subsec_nanos`: the nanoseconds beyond the whole
/// seconds, which are always fewer than one second's worth.
pub assume_specification[ Duration::subsec_nanos ](d: &Duration) -> (r: u32)
    ensures
        r < NANOS_PER_SEC,
;

/// The time passed since `start`.
fn elapsed_since(start: &Instant) -> Span {
    let d = start.elapsed();
    Span::new(d.as_secs(), d.subsec_nanos())
}

/// Relies on `slice::sort`: a stable sort by `T`'s order, which may panic
/// where that order is not total.
#[verifier::external_body]
fn sort_natural<T: Ord>(s: &mut [T])
    requires
        obeys_cmp::<T>(),
    ensures
        stably_sorted(old(s)@, final(s)@, natural_le::<T>()),
{
    s.sort()
}

/// Relies on `slice::sort_unstable`: a sort by `T`'s order that may reorder
/// equal elements, and may panic where that order is not total.
#[verifier::external_body]
fn sort_natural_unstable<T: Ord>(s: &mut [T])
    requires
        obeys_cmp::<T>(),
    ensures
        sorted_permutation(old(s)@, final(s)@, natural_le::<T>()),
{
    s.sort_unstable()
}

/// Relies on `slice::sort_by`: a stable sort by `compare`, which may panic
/// where `compare` is not a total order.
#[verifier::external_body]
fn sort_with<T, F: FnMut(&T, &T) -> Ordering>(s: &mut [T], compare: F)
    requires
        is_total_order_fn(compare),
    ensures
        stably_sorted(old(s)@, final(s)@, comparator_le(compare)),
{
    s.sort_by(compare)
}

/// Relies on `slice::sort_unstable_by`: a sort by `compare` that may reorder
/// equal elements, and may panic where `compare` is not a total order.
#[verifier::external_body]
fn sort_with_unstable<T, F: FnMut(&T, &T) -> Ordering>(s: &mut [T], compare: F)
    requires
        is_total_order_fn(compare),
    ensures
        sorted_permutation(old(s)@, final(s)@, comparator_le(compare)),
{
    s.sort_unstable_by(compare)
}

/// Relies on `slice::sort_by_key`: a stable sort by the keys that `f` gives,
/// which may panic where the keys' order is not total.
#[verifier::external_body]
fn sort_keyed<T, K: Ord, F: FnMut(&T) -> K>(s: &mut [T], f: F)
    requires
        obeys_cmp::<K>(),
        is_key_fn(f),
    ensures
        stably_sorted(old(s)@, final(s)@, key_le(f)),
{
    s.sort_by_key(f)
}

/// Relies on `slice::sort_by_cached_key`: a stable sort by the keys that `f`
/// gives, calling `f` once per element.
#[verifier::external_body]
fn sort_keyed_cached<T, K: Ord, F: FnMut(&T) -> K>(s: &mut [T], f: F)
    requires
        obeys_cmp::<K>(),
        is_key_fn(f),
    ensures
        stably_sorted(old(s)@, final(s)@, key_le(f)),
{
    s.sort_by_cached_key(f)
}

/// Relies on `slice::sort_unstable_by_key`: a sort by the keys that `f`
/// gives that may reorder elements of equal key, and may panic where the
/// keys' order is not total.
#[verifier::external_body]
fn sort_keyed_unstable<T, K: Ord, F: FnMut(&T) -> K>(s: &mut [T], f: F)
    requires
        obeys_cmp::<K>(),
        is_key_fn(f),
    ensures
        sorted_permutation(old(s)@, final(s)@, key_le(f)),
{
    s.sort_unstable_by_key(f)
}

/// Sorting whose cost is meant to be a fixed budget per element.
///
/// Each method sorts, measures how long the sort took, and returns the time
/// still owed: the budget times the number of elements, less the time taken,
/// and never below zero. The caller spends that time (sleeps) before going on.
pub trait LinearSort<T: Ord> {
    /// The elements, in order.
    spec fn elems(&self) -> Seq<T>;

    /// Stable sort by `T`'s order.
    fn linear_sort(&mut self, budget: Span) -> (nap: Span)
        requires
            obeys_cmp::<T>(),
        ensures
            stably_sorted(old(self).elems(), final(self).elems(), natural_le::<T>()),
            nap@ <= target_nanos(budget@, old(self).elems().len()),
    ;

    /// Sort by `T`'s order; equal elements may be reordered.
    fn linear_sort_unstable(&mut self, budget: Span) -> (nap: Span)
        requires
            obeys_cmp::<T>(),
        ensures
            sorted_permutation(old(self).elems(), final(self).elems(), natural_le::<T>()),
            nap@ <= target_nanos(budget@, old(self).elems().len()),
    ;

    /// Stable sort by `compare`.
    fn linear_sort_by<F: FnMut(&T, &T) -> Ordering>(&mut self, budget: Span, compare: F) -> (nap:
        Span)
        requires
            is_total_order_fn(compare),
        ensures
            stably_sorted(old(self).elems(), final(self).elems(), comparator_le(compare)),
            nap@ <= target_nanos(budget@, old(self).elems().len()),
    ;

    /// Sort by `compare`; elements that it ranks level may be reordered.
    fn linear_sort_unstable_by<F: FnMut(&T, &T) -> Ordering>(
        &mut self,
        budget: Span,
        compare: F,
    ) -> (nap: Span)
        requires
            is_total_order_fn(compare),
        ensures
            sorted_permutation(old(self).elems(), final(self).elems(), comparator_le(compare)),
            nap@ <= target_nanos(budget@, old(self).elems().len()),
    ;

    /// Stable sort by the key that `f` gives each element.
    fn linear_sort_by_key<K: Ord, F: FnMut(&T) -> K>(&mut self, budget: Span, f: F) -> (nap:
        Span)
        requires
            obeys_cmp::<K>(),
            is_key_fn(f),
        ensures
            stably_sorted(old(self).elems(), final(self).elems(), key_le(f)),
            nap@ <= target_nanos(budget@, old(self).elems().len()),
    ;

    /// Stable sort by the key that `f` gives each element, with `f` called
    /// once per element.
    fn linear_sort_by_cached_key<K: Ord, F: FnMut(&T) -> K>(&mut self, budget: Span, f: F) -> (nap:
        Span)
        requires
            obeys_cmp::<K>(),
            is_key_fn(f),
        ensures
            stably_sorted(old(self).elems(), final(self).elems(), key_le(f)),
            nap@ <= target_nanos(budget@, old(self).elems().len()),
    ;

    /// Sort by the key that `f` gives each element; elements of equal key
    /// may be reordered.
    fn linear_sort_unstable_by_key<K: Ord, F: FnMut(&T) -> K>(
        &mut self,
        budget: Span,
        f: F,
    ) -> (nap: Span)
        requires
            obeys_cmp::<K>(),
            is_key_fn(f),
        ensures
            sorted_permutation(old(self).elems(), final(self).elems(), key_le(f)),
            nap@ <= target_nanos(budget@, old(self).elems().len()),
    ;
}

impl<T: Ord> LinearSort<T> for [T] {
    open spec fn elems(&self) -> Seq<T> {
        self@
    }

    fn linear_sort(&mut self, budget: Span) -> (nap: Span) {
        let n = self.len();
        let start = Instant::now();
        sort_natural(self);
        let elapsed = elapsed_since(&start);
        let nap = nap_for(elapsed, n, budget);
        proof {
            lemma_nap_within_target(budget@, n as nat, elapsed@);
        }
        nap
    }

    fn linear_sort_unstable(&mut self, budget: Span) -> (nap: Span) {
        let n = self.len();
        let start = Instant::now();
        sort_natural_unstable(self);
        let elapsed = elapsed_since(&start);
        let nap = nap_for(elapsed, n, budget);
        proof {
            lemma_nap_within_target(budget@, n as nat, elapsed@);
        }
        nap
    }

    fn linear_sort_by<F: FnMut(&T, &T) -> Ordering>(&mut self, budget: Span, compare: F) -> (nap:
        Span) {
        let n = self.len();
        let start = Instant::now();
        sort_with(self, compare);
        let elapsed = elapsed_since(&start);
        let nap = nap_for(elapsed, n, budget);
        proof {
            lemma_nap_within_target(budget@, n as nat, elapsed@);
        }
        nap
    }

    fn linear_sort_unstable_by<F: FnMut(&T, &T) -> Ordering>(
        &mut self,
        budget: Span,
        compare: F,
    ) -> (nap: Span) {
        let n = self.len();
        let start = Instant::now();
        sort_with_unstable(self, compare);
        let elapsed = elapsed_since(&start);
        let nap = nap_for(elapsed, n, budget);
        proof {
            lemma_nap_within_target(budget@, n as nat, elapsed@);
        }
        nap
    }

    fn linear_sort_by_key<K: Ord, F: FnMut(&T) -> K>(&mut self, budget: Span, f: F) -> (nap:
        Span) {
        let n = self.len();
        let start = Instant::now();
        sort_keyed(self, f);
        let elapsed = elapsed_since(&start);
        let nap = nap_for(elapsed, n, budget);
        proof {
            lemma_nap_within_target(budget@, n as nat, elapsed@);
        }
        nap
    }

    fn linear_sort_by_cached_key<K: Ord, F: FnMut(&T) -> K>(&mut self, budget: Span, f: F) -> (nap:
        Span) {
        let n = self.len();
        let start = Instant::now();
        sort_keyed_cached(self, f);
        let elapsed = elapsed_since(&start);
        let nap = nap_for(elapsed, n, budget);
        proof {
            lemma_nap_within_target(budget@, n as nat, elapsed@);
        }
        nap
    }

    fn linear_sort_unstable_by_key<K: Ord, F: FnMut(&T) -> K>(
        &mut self,
        budget: Span,
        f: F,
    ) -> (nap: Span) {
        let n = self.len();
        let start = Instant::now();
        sort_keyed_unstable(self, f);
        let elapsed = elapsed_since(&start);
        let nap = nap_for(elapsed, n, budget);
        proof {
            lemma_nap_within_target(budget@, n as nat, elapsed@);
        }
        nap
    }
}

} // verus!
