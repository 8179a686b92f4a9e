use mqtt_broker::limit::Limit;

#[test]
fn zero_is_no_limit() {
    assert_eq!(Limit::new(0), None);
}

#[test]
fn positive_values_are_limits() {
    assert_eq!(Limit::new(1).map(Limit::get), Some(1));
    assert_eq!(Limit::new(4096).map(Limit::get), Some(4096));
    assert_eq!(Limit::new(usize::MAX).map(Limit::get), Some(usize::MAX));
}
