use linear_sort::Span;

#[test]
fn span_from_millis_splits_seconds() {
    let s = Span::from_millis(2_345);
    assert_eq!(s.as_secs(), 2);
    assert_eq!(s.subsec_nanos(), 345_000_000);
    assert_eq!(s.as_millis(), 2_345);
    assert_eq!(s.as_nanos(), 2_345_000_000);
}

#[test]
fn span_new_carries_nanos() {
    let s = Span::new(1, 2_500_000_000);
    assert_eq!(s.as_secs(), 3);
    assert_eq!(s.subsec_nanos(), 500_000_000);
}

#[test]
fn span_saturating_mul_exact_and_clamped() {
    assert_eq!(Span::from_millis(100).saturating_mul(5), Span::from_millis(500));
    assert_eq!(Span::from_millis(1).saturating_mul(0), Span::zero());
    assert_eq!(Span::from_secs(u64::MAX).saturating_mul(2), Span::max_value());
}

#[test]
fn span_saturating_sub_exact_and_clamped() {
    assert_eq!(
        Span::from_millis(500).saturating_sub(Span::new(0, 1)),
        Span::new(0, 499_999_999)
    );
    assert_eq!(Span::from_millis(5).saturating_sub(Span::from_millis(6)), Span::zero());
}

#[test]
fn span_max_value_parts() {
    let m = Span::max_value();
    assert_eq!(m.as_secs(), u64::MAX);
    assert_eq!(m.subsec_nanos(), 999_999_999);
    assert!(!m.is_zero());
    assert!(Span::zero().is_zero());
}
