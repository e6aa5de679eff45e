//! The millisecond clock.

use vstd::prelude::*;

verus! {

/// The tick count of `embassy_time::Instant::now()`.
///
/// Nothing is claimed of it: it is whatever the time driver counts at that moment.
#[verifier::external_body]
fn ticks_now() -> (ticks: u64) {
    embassy_time::Instant::now().as_ticks()
}

/// `embassy_time::TICK_HZ`, the number of ticks in a second.
///
/// The tick rate is fixed by the features of that crate and of its time driver: one
/// million with the driver of a host, 32768 with the one of the chip. Claimed is only what
/// holds with both, that a millisecond has at least one tick.
#[verifier::external_body]
fn tick_hz() -> (hz: u64)
    ensures
        hz >= 1000,
{
    embassy_time::TICK_HZ
}

/// What a 32-bit millisecond counter shows after `ticks` ticks of a `hz` clock.
pub open spec fn ms_of_ticks(ticks: u64, hz: u64) -> int {
    (ticks as int / (hz as int / 1000)) % 0x1_0000_0000
}

/// Converts ticks to milliseconds, in whole ticks per millisecond; the count wraps at
/// 32 bits.
pub fn ticks_to_ms(ticks: u64, hz: u64) -> (ms: u32)
    requires
        hz >= 1000,
    ensures
        ms == ms_of_ticks(ticks, hz),
{
    let count: u64 = ticks / (hz / 1000);
    assert(count as u32 == count % 0x1_0000_0000) by (bit_vector);
    #[verifier::truncate]
    (count as u32)
}

/// The time since start-up in milliseconds, modulo 2^32.
pub fn now_ms() -> (ms: u32)
    ensures
        exists|ticks: u64, hz: u64| hz >= 1000 && ms == #[trigger] ms_of_ticks(ticks, hz),
{
    ticks_to_ms(ticks_now(), tick_hz())
}

/// One step of the millisecond count takes as many ticks as go into a millisecond, it starts
/// at 0, and after 2^32 milliseconds it starts over.
pub proof fn law_clock_counts_milliseconds(ticks: u64, hz: u64)
    requires
        hz >= 1000,
    ensures
        ({
            let tick = hz as int / 1000;
            &&& 0 <= ms_of_ticks(ticks, hz) <= 0xFFFF_FFFF
            &&& ticks < tick ==> ms_of_ticks(ticks, hz) == 0
            &&& ticks + tick <= u64::MAX ==> ms_of_ticks((ticks + tick) as u64, hz) == (
            ms_of_ticks(ticks, hz) + 1) % 0x1_0000_0000
            &&& ticks % (tick as u64) != 0 ==> ms_of_ticks(ticks, hz) == ms_of_ticks(
                (ticks - 1) as u64,
                hz,
            )
        }),
{
    let tick = hz as int / 1000;
    let t = ticks as int;
    assert((t + tick) / tick == t / tick + 1) by (nonlinear_arith)
        requires
            tick >= 1,
            t >= 0,
    ;
    if t < tick {
        assert(t / tick == 0) by (nonlinear_arith)
            requires
                0 <= t < tick,
        ;
    }
    if t % tick != 0 {
        assert(t >= 1 && (t - 1) / tick == t / tick) by (nonlinear_arith)
            requires
                tick >= 1,
                t >= 0,
                t % tick != 0,
        ;
    }
}

} // verus!
