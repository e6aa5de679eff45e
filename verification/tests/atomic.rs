use ergohaven::atomic::AtomicI32;

#[test]
fn cell_gives_back_what_was_stored() {
    let mut cell = AtomicI32::new(-5);
    assert_eq!(cell.load(), -5);
    cell.store(i32::MIN);
    assert_eq!(cell.load(), i32::MIN);
    cell.store(1_000_000);
    assert_eq!(cell.load(), 1_000_000);
}

#[test]
fn adding_returns_the_number_before() {
    let mut cell = AtomicI32::new(40);
    assert_eq!(cell.fetch_add(2), 40);
    assert_eq!(cell.load(), 42);
    assert_eq!(cell.fetch_add(-100), 42);
    assert_eq!(cell.load(), -58);
}

#[test]
fn adding_wraps_around() {
    let mut cell = AtomicI32::new(i32::MAX);
    assert_eq!(cell.fetch_add(1), i32::MAX);
    assert_eq!(cell.load(), i32::MIN);
    assert_eq!(cell.fetch_add(-1), i32::MIN);
    assert_eq!(cell.load(), i32::MAX);
}
