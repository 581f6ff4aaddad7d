use ownership_kit::counter::Counter;

#[test]
fn new_counter_is_zero() {
    let mut counter = Counter::new();
    assert_eq!(counter.get(), 0);
}

#[test]
fn increment_adds_one_each_time() {
    let mut counter = Counter::new();
    counter.increment();
    assert_eq!(counter.get(), 1);
    counter.increment();
    counter.increment();
    assert_eq!(counter.get(), 3);
    assert_eq!(counter.get(), 3);
}
