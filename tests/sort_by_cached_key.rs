use linear_sort::{
    linear_sort_sleep_duration, set_linear_sort_sleep_duration, LinearSort, SleepDurationStore,
    Span,
};

fn short_budget() -> Span {
    let mut store = SleepDurationStore::new();
    if let Err(e) = set_linear_sort_sleep_duration(&mut store, Span::from_millis(100)) {
        println!("Failed to set sleep duration: {:?}, ignoring... ", e);
    }
    linear_sort_sleep_duration(&mut store)
}

#[test]
fn sort_by_cached_key_sort() {
    let budget = short_budget();

    let mut subject = [4_i32, -5, 1, -3, 2];

    subject.linear_sort_by_cached_key(budget, |&a| a.abs().to_string());
    assert_eq!(subject, [1, 2, -3, 4, -5]);
}

#[test]
fn sort_by_cached_key_already_sorted() {
    let budget = short_budget();

    let mut subject = [1_i32, 2, -3, 4, -5];

    subject.linear_sort_by_cached_key(budget, |&a| a.abs().to_string());
    assert_eq!(subject, [1, 2, -3, 4, -5]);
}
