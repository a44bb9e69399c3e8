use linear_sort::{
    linear_sort_sleep_duration, nap_for, set_linear_sort_sleep_duration, SleepDurationStore, Span,
};

#[test]
fn second_set_is_rejected_with_its_own_value() {
    let mut store = SleepDurationStore::new();

    assert_eq!(set_linear_sort_sleep_duration(&mut store, Span::from_millis(100)), Ok(()));
    assert_eq!(
        set_linear_sort_sleep_duration(&mut store, Span::from_millis(7)),
        Err(Span::from_millis(7))
    );
    assert_eq!(linear_sort_sleep_duration(&mut store), Span::from_millis(100));
}

#[test]
fn first_read_settles_the_default() {
    let mut store = SleepDurationStore::new();

    assert_eq!(linear_sort_sleep_duration(&mut store), Span::from_secs(1_000_000));
    assert_eq!(
        set_linear_sort_sleep_duration(&mut store, Span::from_millis(100)),
        Err(Span::from_millis(100))
    );
    assert_eq!(linear_sort_sleep_duration(&mut store), Span::from_secs(1_000_000));
}

#[test]
fn nap_is_budget_times_count_less_elapsed() {
    let nap = nap_for(Span::from_millis(30), 5, Span::from_millis(100));
    assert_eq!(nap, Span::from_millis(470));
}

#[test]
fn nap_is_zero_when_sort_was_slower() {
    let nap = nap_for(Span::from_millis(600), 5, Span::from_millis(100));
    assert_eq!(nap, Span::zero());
}

#[test]
fn nap_of_empty_is_zero() {
    let nap = nap_for(Span::zero(), 0, Span::from_millis(100));
    assert_eq!(nap, Span::zero());
}

#[test]
fn nap_count_saturates_at_u32_max() {
    let len = usize::try_from(u64::from(u32::MAX) + 10).unwrap_or(usize::MAX);
    let nap = nap_for(Span::zero(), len, Span::new(0, 1));
    assert_eq!(nap.as_nanos(), u128::from(u32::MAX));
}

#[test]
fn nap_product_saturates_at_longest_span() {
    let nap = nap_for(Span::zero(), 2, Span::max_value());
    assert_eq!(nap, Span::max_value());
    let less = nap_for(Span::from_secs(1), 2, Span::max_value());
    assert_eq!(less, Span::new(u64::MAX - 1, 999_999_999));
}
