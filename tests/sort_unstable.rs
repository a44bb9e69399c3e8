use linear_sort::{
    linear_sort_sleep_duration, set_linear_sort_sleep_duration, LinearSort, SleepDurationStore,
    Span,
};

fn short_budget() -> Span {
    let mut store = SleepDurationStore::new();
    if let Err(e) = set_linear_sort_sleep_duration(&mut store, Span::from_millis(100)) {
        println!("Failed to set sleep duration: {:?}, ignoring... ", e);
    }
    linear_sort_sleep_duration(&mut store)
}

#[test]
fn sort_unstable_sort() {
    let budget = short_budget();

    let mut subject = [4, -5, 1, -3, 2];

    assert!(!subject.is_sorted());
    subject.linear_sort_unstable(budget);
    assert!(subject.is_sorted());
}

#[test]
fn sort_unstable_already_sorted() {
    let budget = short_budget();

    let mut subject = [-5, -3, 1, 2, 4];

    assert!(subject.is_sorted());
    subject.linear_sort_unstable(budget);
    assert!(subject.is_sorted());
}

#[test]
fn sort_unstable_by_key_orders_keys() {
    let budget = short_budget();
    let mut subject = [4_i32, -5, 1, -3, 2];

    subject.linear_sort_unstable_by_key(budget, |a| a.abs());
    assert_eq!(subject, [1, 2, -3, 4, -5]);
}

#[test]
fn sort_unstable_by_reverse_order() {
    let budget = short_budget();
    let mut subject = [4_i32, -5, 1, -3, 2];

    subject.linear_sort_unstable_by(budget, |a, b| b.cmp(a));
    assert_eq!(subject, [4, 2, 1, -3, -5]);
}
