use ergohaven::clock::{now_ms, ticks_to_ms};

#[test]
fn ticks_become_milliseconds() {
    assert_eq!(ticks_to_ms(1_234_567, 1_000_000), 1_234);
    assert_eq!(ticks_to_ms(32_768, 32_768), 1_024);
    assert_eq!(ticks_to_ms(0x1_0000_0000, 1_000), 0);
}

#[test]
fn clock_counts_milliseconds() {
    let start = std::time::Instant::now();
    let first = now_ms();
    while start.elapsed().as_millis() < 30 {}
    let waited = now_ms().wrapping_sub(first);
    assert!(waited >= 29);
    assert!(waited < 10_000);
}
