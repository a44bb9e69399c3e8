use linear_sort::{
    linear_sort_sleep_duration, set_linear_sort_sleep_duration, LinearSort, SleepDurationStore,
    Span,
};

fn short_budget() -> Span {
    let mut store = SleepDurationStore::new();
    if let Err(e) = set_linear_sort_sleep_duration(&mut store, Span::from_millis(100)) {
        println!("Failed to set sleep duration: {:?}, ignoring... ", e);
    }
    linear_sort_sleep_duration(&mut store)
}

#[test]
fn sort_by_key_sort() {
    let budget = short_budget();

    let mut subject = [4_i32, -5, 1, -3, 2];

    subject.linear_sort_by_key(budget, |a| a.abs());
    assert_eq!(subject, [1, 2, -3, 4, -5]);
}

#[test]
fn sort_by_key_already_sorted() {
    let budget = short_budget();

    let mut subject = [1_i32, 2, -3, 4, -5];

    subject.linear_sort_by_key(budget, |a| a.abs());
    assert_eq!(subject, [1, 2, -3, 4, -5]);
}

#[test]
fn sort_by_key_owes_the_budget_less_the_time_taken() {
    let budget = short_budget();
    let mut subject = [4_i32, -5, 1, -3, 2];

    let start = std::time::Instant::now();
    let nap = subject.linear_sort_by_key(budget, |a| a.abs());
    let taken = start.elapsed();

    assert_eq!(subject, [1, 2, -3, 4, -5]);
    assert!(nap.as_nanos() <= 500_000_000);
    assert!(nap.as_nanos() + taken.as_nanos() >= 500_000_000);
}

#[test]
fn sort_by_key_keeps_order_of_equal_keys() {
    let budget = short_budget();
    let mut subject = [(2, 'a'), (1, 'b'), (2, 'c'), (1, 'd'), (0, 'e')];

    subject.linear_sort_by_key(budget, |p| p.0);
    assert_eq!(subject, [(0, 'e'), (1, 'b'), (1, 'd'), (2, 'a'), (2, 'c')]);
}

#[test]
fn sort_by_key_of_empty_owes_nothing() {
    let budget = short_budget();
    let mut subject: [i32; 0] = [];

    let nap = subject.linear_sort_by_key(budget, |a| a.abs());
    assert!(subject.is_empty());
    assert!(nap.is_zero());
}
