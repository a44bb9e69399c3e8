use linear_sort::{LinearSort, Span};

#[test]
fn sort_natural_order() {
    let mut subject = vec![4_i32, -5, 1, -3, 2];

    let nap = subject.linear_sort(Span::from_millis(1));
    assert_eq!(subject, vec![-5, -3, 1, 2, 4]);
    assert!(nap.as_nanos() <= 5_000_000);
}

#[test]
fn sort_natural_order_already_sorted() {
    let mut subject = [-5_i32, -3, 1, 2, 4];

    subject.linear_sort(Span::from_millis(1));
    assert_eq!(subject, [-5, -3, 1, 2, 4]);
}

#[test]
fn sort_by_comparator_is_stable() {
    let mut subject = [(2, 'a'), (1, 'b'), (2, 'c'), (1, 'd')];

    subject.linear_sort_by(Span::from_millis(1), |x, y| y.0.cmp(&x.0));
    assert_eq!(subject, [(2, 'a'), (2, 'c'), (1, 'b'), (1, 'd')]);
}

#[test]
fn sort_of_empty_leaves_it_empty() {
    let mut subject: Vec<i32> = Vec::new();

    let nap = subject.linear_sort(Span::from_secs(3));
    assert!(subject.is_empty());
    assert_eq!(nap, Span::zero());
}

#[test]
fn sort_of_already_sorted_still_owes_the_budget() {
    let mut subject = [1_u8, 2, 3, 4];

    let start = std::time::Instant::now();
    let nap = subject.linear_sort_unstable(Span::from_millis(50));
    let taken = start.elapsed();
    assert_eq!(subject, [1, 2, 3, 4]);
    assert!(nap.as_nanos() + taken.as_nanos() >= 200_000_000);
}
