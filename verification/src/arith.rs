//! Machine arithmetic, stated over the integers.

use vstd::prelude::*;

verus! {

/// The `i32` that agrees with `x` in its low 32 bits.
pub open spec fn wrap_i32(x: int) -> int {
    (x + 0x8000_0000) % 0x1_0000_0000 - 0x8000_0000
}

/// The `i8` that agrees with `x` in its low 8 bits.
pub open spec fn wrap_i8(x: int) -> int {
    (x + 0x80) % 0x100 - 0x80
}

/// `x`, or the end of the `i8` range that is nearest to it.
pub open spec fn clamp_i8(x: int) -> int {
    if x < -128 {
        -128
    } else if x > 127 {
        127
    } else {
        x
    }
}

/// `a / d` rounded towards zero.
pub open spec fn div_trunc(a: int, d: int) -> int {
    if a >= 0 {
        a / d
    } else {
        -((-a) / d)
    }
}

/// What [`div_trunc`] leaves over; it has the sign of `a`.
pub open spec fn rem_trunc(a: int, d: int) -> int {
    if a >= 0 {
        a % d
    } else {
        -((-a) % d)
    }
}

/// Milliseconds from `then` to `now` on a clock that wraps at 32 bits.
pub open spec fn elapsed_ms(now: u32, then: u32) -> int {
    if now >= then {
        now - then
    } else {
        now - then + 0x1_0000_0000
    }
}

/// Milliseconds from `then` to `now` on a clock that wraps at 32 bits.
pub fn elapsed(now: u32, then: u32) -> (ms: u32)
    ensures
        ms == elapsed_ms(now, then),
{
    now.wrapping_sub(then)
}

/// The low byte of `-q`, as a signed number.
pub fn low_byte_of_negated(q: i32) -> (r: i8)
    ensures
        r == wrap_i8(-q),
{
    let negated: i32 = 0i32.wrapping_sub(q);
    proof {
        assert(negated as i8 as int == (negated + 0x80) % 0x100 - 0x80) by (bit_vector);
        assert(negated == -q || (q == i32::MIN && negated == i32::MIN));
    }
    #[verifier::truncate]
    (negated as i8)
}

/// The low byte of `q`, as a signed number.
pub fn low_byte(q: i32) -> (r: i8)
    ensures
        r == wrap_i8(q as int),
{
    assert(q as i8 as int == (q + 0x80) % 0x100 - 0x80) by (bit_vector);
    #[verifier::truncate]
    (q as i8)
}

/// `v` brought into the range of an `i8`.
pub fn clamp_to_i8(v: i32) -> (r: i8)
    ensures
        r == clamp_i8(v as int),
{
    if v < -128 {
        -128
    } else if v > 127 {
        127
    } else {
        v as i8
    }
}

/// Quotient and remainder rebuild the dividend, and the remainder is smaller than
/// the divisor.
pub proof fn lemma_div_rem_trunc(a: int, d: int)
    requires
        d >= 1,
    ensures
        d * div_trunc(a, d) + rem_trunc(a, d) == a,
        -d < rem_trunc(a, d) < d,
{
    vstd::arithmetic::div_mod::lemma_fundamental_div_mod(a, d);
    vstd::arithmetic::div_mod::lemma_fundamental_div_mod(-a, d);
    vstd::arithmetic::mul::lemma_mul_unary_negation(d, (-a) / d);
}

/// A sum can be wrapped once at the end or at each step.
pub proof fn lemma_wrap_i32_sum(a: int, b: int)
    ensures
        wrap_i32(wrap_i32(a) + b) == wrap_i32(a + b),
{
    let m = 0x1_0000_0000;
    let k = (a + 0x8000_0000) / m;
    vstd::arithmetic::div_mod::lemma_fundamental_div_mod(a + 0x8000_0000, m);
    assert(a + b + 0x8000_0000 == m * k + (wrap_i32(a) + b + 0x8000_0000));
    vstd::arithmetic::div_mod::lemma_mod_multiples_vanish(k, wrap_i32(a) + b + 0x8000_0000, m);
}

/// Setting and clearing the lowest bit of a byte that has no other.
pub proof fn lemma_lowest_bit()
    ensures
        0u8 | 1u8 == 1u8,
        1u8 | 1u8 == 1u8,
        0u8 & !1u8 == 0u8,
        1u8 & !1u8 == 0u8,
{
    assert(0u8 | 1u8 == 1u8) by (bit_vector);
    assert(1u8 | 1u8 == 1u8) by (bit_vector);
    assert(0u8 & !1u8 == 0u8) by (bit_vector);
    assert(1u8 & !1u8 == 0u8) by (bit_vector);
}

/// Wrapping gives the only number in range that differs from `x` by whole turns.
pub proof fn law_wrap(x: int, y: int)
    ensures
        -0x8000_0000 <= wrap_i32(x) <= 0x7FFF_FFFF,
        (x - wrap_i32(x)) % 0x1_0000_0000 == 0,
        -0x8000_0000 <= y <= 0x7FFF_FFFF && (x - y) % 0x1_0000_0000 == 0 ==> wrap_i32(x) == y,
        -0x80 <= wrap_i8(x) <= 0x7F,
        (x - wrap_i8(x)) % 0x100 == 0,
        -0x80 <= y <= 0x7F && (x - y) % 0x100 == 0 ==> wrap_i8(x) == y,
{
    lemma_wrap(x, y, 0x8000_0000, 0x1_0000_0000);
    lemma_wrap(x, y, 0x80, 0x100);
}

proof fn lemma_wrap(x: int, y: int, half: int, turn: int)
    requires
        half >= 1,
        turn == 2 * half,
    ensures
        ({
            let wrapped = (x + half) % turn - half;
            &&& -half <= wrapped < half
            &&& (x - wrapped) % turn == 0
            &&& -half <= y < half && (x - y) % turn == 0 ==> wrapped == y
        }),
{
    let wrapped = (x + half) % turn - half;
    let k = (x + half) / turn;
    vstd::arithmetic::div_mod::lemma_fundamental_div_mod(x + half, turn);
    assert(x - wrapped == turn * k);
    vstd::arithmetic::div_mod::lemma_mod_bound(x + half, turn);
    vstd::arithmetic::div_mod::lemma_mod_multiples_basic(k, turn);
    vstd::arithmetic::mul::lemma_mul_is_commutative(turn, k);
    if -half <= y < half && (x - y) % turn == 0 {
        let j = (x - y) / turn;
        vstd::arithmetic::div_mod::lemma_fundamental_div_mod(x - y, turn);
        vstd::arithmetic::mul::lemma_mul_is_commutative(turn, j);
        vstd::arithmetic::div_mod::lemma_fundamental_div_mod_converse(
            x + half,
            turn,
            j,
            y + half,
        );
    }
}

/// Clamping gives an `i8`, and none is nearer to `x`.
pub proof fn law_clamp_is_nearest(x: int, y: i8)
    ensures
        -0x80 <= clamp_i8(x) <= 0x7F,
        x <= y ==> x <= clamp_i8(x) <= y || clamp_i8(x) == -0x80,
        x >= y ==> y <= clamp_i8(x) <= x || clamp_i8(x) == 0x7F,
        x == y ==> clamp_i8(x) == y,
{
}

/// Truncating division counts how often `d` goes into `a`, with the sign of `a`, and the
/// remainder is what is left.
pub proof fn law_division_truncates(a: int, d: int)
    requires
        d >= 1,
    ensures
        a >= 0 ==> 0 <= d * div_trunc(a, d) <= a < d * div_trunc(a, d) + d,
        a <= 0 ==> d * div_trunc(a, d) - d < a <= d * div_trunc(a, d) <= 0,
        a >= 0 ==> div_trunc(a, d) >= 0,
        a <= 0 ==> div_trunc(a, d) <= 0,
        rem_trunc(a, d) == a - d * div_trunc(a, d),
        div_trunc(-a, d) == -div_trunc(a, d),
{
    lemma_div_rem_trunc(a, d);
    let n = if a >= 0 {
        a
    } else {
        -a
    };
    assert(n / d >= 0 && 0 <= n % d < d && d * (n / d) + n % d == n) by (nonlinear_arith)
        requires
            n >= 0,
            d >= 1,
    ;
    assert(d * (-(n / d)) == -(d * (n / d))) by (nonlinear_arith);
}

/// A division has one answer: a quotient with the sign of `a` and less than `d` left.
pub proof fn law_quotient_is_unique(a: int, d: int, q: int)
    requires
        d >= 1,
        a >= 0 ==> q >= 0 && d * q <= a < d * q + d,
        a <= 0 ==> q <= 0 && d * q - d < a <= d * q,
    ensures
        div_trunc(a, d) == q,
{
    law_division_truncates(a, d);
    let p = div_trunc(a, d);
    if p != q {
        assert(false) by (nonlinear_arith)
            requires
                p != q,
                d >= 1,
                a >= 0 ==> d * q <= a < d * q + d && d * p <= a < d * p + d,
                a <= 0 ==> d * q - d < a <= d * q && d * p - d < a <= d * p,
        ;
    }
}

/// The time from `then` to `now` is what has to pass after `then` for a 32-bit clock to
/// show `now`. It does not matter where the clock started.
pub proof fn law_elapsed(now: u32, then: u32, shift: u32)
    ensures
        0 <= elapsed_ms(now, then) <= 0xFFFF_FFFF,
        (then + elapsed_ms(now, then)) % 0x1_0000_0000 == now,
        elapsed_ms(
            ((now + shift) % 0x1_0000_0000) as u32,
            ((then + shift) % 0x1_0000_0000) as u32,
        ) == elapsed_ms(now, then),
{
}

} // verus!
