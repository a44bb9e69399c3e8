use vstd::prelude::*;

use crate::span::{clamp_nanos, sub_or_zero, Span, NANOS_PER_SEC};

verus! {

/// Seconds per element used when no budget was set before the first read.
pub const DEFAULT_SECS: u64 = 1_000_000;

/// The default budget in nanoseconds.
pub open spec fn default_nanos() -> nat {
    (DEFAULT_SECS as nat) * (NANOS_PER_SEC as nat)
}

/// What a cell holds after a write of `value`: the value already there, or
/// else `value`.
pub open spec fn settled(held: Option<nat>, value: nat) -> Option<nat> {
    match held {
        Some(v) => Some(v),
        None => Some(value),
    }
}

/// The budget that a read finds: the value held, or else the default.
pub open spec fn effective(held: Option<nat>) -> nat {
    match held {
        Some(v) => v,
        None => default_nanos(),
    }
}

/// The number of elements that the timing counts: `len`, or `u32::MAX` where
/// `len` is larger.
pub open spec fn counted(len: nat) -> nat {
    if len <= u32::MAX {
        len
    } else {
        u32::MAX as nat
    }
}

/// The time in nanoseconds that a sort of `len` elements is meant to take.
pub open spec fn target_nanos(budget: nat, len: nat) -> nat {
    clamp_nanos(budget * counted(len))
}

/// The time still owed after a sort that took `elapsed`.
pub open spec fn deficit(budget: nat, len: nat, elapsed: nat) -> nat {
    sub_or_zero(target_nanos(budget, len), elapsed)
}

/// A set-once cell for the time budget per element.
///
/// It is empty until the first read or write; from then on it holds one value
/// for good. Its view is the value held, in nanoseconds, if any.
#[derive(Debug)]
pub struct SleepDurationStore {
    value: Option<Span>,
}

impl View for SleepDurationStore {
    type V = Option<nat>;

    closed spec fn view(&self) -> Option<nat> {
        match self.value {
            Some(s) => Some(s@),
            None => None,
        }
    }
}

impl SleepDurationStore {
    /// An empty cell.
    pub fn new() -> (r: SleepDurationStore)
        ensures
            r@ == None::<nat>,
    {
        SleepDurationStore { value: None }
    }
}

/// The budget per element held by `store`; an empty store is first given
/// the default budget.
pub fn linear_sort_sleep_duration(store: &mut SleepDurationStore) -> (r: Span)
    ensures
        r@ == effective(old(store)@),
        final(store)@ == settled(old(store)@, default_nanos()),
{
    match store.value {
        Some(v) => v,
        None => {
            let d = Span::from_secs(DEFAULT_SECS);
            store.value = Some(d);
            d
        },
    }
}

/// Sets the budget per element, if `store` holds none yet.
///
/// Fails, handing back `value` itself, where a budget is already held; the
/// held budget then stays as it was.
pub fn set_linear_sort_sleep_duration(store: &mut SleepDurationStore, value: Span) -> (r: Result<
    (),
    Span,
>)
    ensures
        r is Ok <==> old(store)@ is None,
        r is Err ==> r->Err_0 == value,
        final(store)@ == settled(old(store)@, value@),
{
    match store.value {
        Some(_) => Err(value),
        None => {
            store.value = Some(value);
            Ok(())
        },
    }
}

/// The time still owed by a sort of `len` elements that took `elapsed`,
/// at `budget` per element.
///
/// The count saturates at `u32::MAX`, the product at the longest span, and
/// the difference at zero.
pub fn nap_for(elapsed: Span, len: usize, budget: Span) -> (r: Span)
    ensures
        r@ == deficit(budget@, len as nat, elapsed@),
{
    let n: u32 = if len <= u32::MAX as usize {
        len as u32
    } else {
        u32::MAX
    };
    let zzz = budget.saturating_mul(n);
    zzz.saturating_sub(elapsed)
}

/// Once a first write or read has filled the cell, a later write of any value
/// is rejected and the budget read afterwards is the one that the first
/// write established.
pub proof fn lemma_set_once(held: Option<nat>, first: nat, second: nat)
    ensures
        settled(held, first) is Some,
        settled(settled(held, first), second) == settled(held, first),
        held is None ==> effective(settled(held, first)) == first,
        held is Some ==> effective(settled(held, first)) == effective(held),
        settled(settled(held, first), default_nanos()) == settled(held, first),
{
}

/// The time that a sort took plus the time still owed is at least the budget
/// times the number of elements, wherever neither the count nor the product
/// saturates.
pub proof fn lemma_nap_covers_budget(budget: nat, len: nat, elapsed: nat)
    requires
        len <= u32::MAX,
        budget * len <= crate::span::max_nanos(),
    ensures
        deficit(budget, len, elapsed) + elapsed >= budget * len,
        target_nanos(budget, len) == budget * len,
{
}

/// Whatever the sort took, the time owed never exceeds the target.
pub proof fn lemma_nap_within_target(budget: nat, len: nat, elapsed: nat)
    ensures
        deficit(budget, len, elapsed) <= target_nanos(budget, len),
        deficit(budget, len, elapsed) + elapsed >= target_nanos(budget, len),
{
}

/// Nothing is owed for an empty sequence.
pub proof fn lemma_empty_owes_nothing(budget: nat, elapsed: nat)
    ensures
        deficit(budget, 0, elapsed) == 0,
{
    assert(budget * 0 == 0) by (nonlinear_arith);
}

} // verus!
