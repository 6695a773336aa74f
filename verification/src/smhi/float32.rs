//! Single-precision floating-point readings, held as their IEEE 754 binary32
//! bit patterns, and the exact integer computations the forecast needs on
//! them: classification, truncation to an integer, fixed-point decimal
//! rendering, and the remainder modulo 360.
//!
//! A finite value is `±units · 2^-149` for a natural number of units: the
//! smallest subnormal is one unit.

use vstd::prelude::*;
use vstd::arithmetic::power2::{
    pow2, lemma_pow2_adds, lemma_pow2_pos, lemma_pow2_strictly_increases, lemma2_to64,
};
use vstd::arithmetic::div_mod::{
    lemma_fundamental_div_mod_converse, lemma_div_multiples_vanish, lemma_div_denominator,
    lemma_fundamental_div_mod,
};
use vstd::bits::{lemma_u64_shl_is_mul, lemma_u32_shr_is_div};
use crate::text::{decimal, digit, digit_char, push_decimal};

verus! {

/// The biased exponent field of the bit pattern `b`.
pub open spec fn exp_field(b: u32) -> nat {
    ((b % 0x8000_0000) / 0x80_0000) as nat
}

/// The fraction field of the bit pattern `b`.
pub open spec fn mant_field(b: u32) -> nat {
    (b % 0x80_0000) as nat
}

/// The sign bit of `b` is set.
pub open spec fn is_negative(b: u32) -> bool {
    b >= 0x8000_0000
}

/// `b` is a NaN: all exponent bits set and a non-zero fraction.
pub open spec fn is_nan(b: u32) -> bool {
    exp_field(b) == 255 && mant_field(b) != 0
}

/// `b` is an infinity: all exponent bits set and a zero fraction.
pub open spec fn is_infinite(b: u32) -> bool {
    exp_field(b) == 255 && mant_field(b) == 0
}

/// `b` is a finite value (zero, subnormal or normal).
pub open spec fn is_finite(b: u32) -> bool {
    exp_field(b) != 255
}

/// The significand of a finite value: the fraction with its implicit leading
/// bit for normal numbers.
pub open spec fn significand(b: u32) -> nat {
    if exp_field(b) == 0 {
        mant_field(b)
    } else {
        mant_field(b) + 0x80_0000
    }
}

/// The power of two that scales the significand, in units of `2^-149`.
pub open spec fn scale(b: u32) -> nat {
    if exp_field(b) == 0 {
        0
    } else {
        (exp_field(b) - 1) as nat
    }
}

/// The magnitude of a finite value, in units of `2^-149`.
pub open spec fn units(b: u32) -> nat {
    significand(b) * pow2(scale(b))
}

/// The number of units in one: `2^149`.
pub open spec fn one() -> nat {
    pow2(149)
}

/// What Rust's saturating conversion `value as u32` gives: zero for NaN and
/// for negative values, the largest `u32` for values beyond it, and otherwise
/// the value with its fraction dropped.
pub open spec fn to_u32_saturating(b: u32) -> u32 {
    if is_nan(b) || is_negative(b) {
        0
    } else if is_infinite(b) {
        u32::MAX
    } else if units(b) / one() > u32::MAX {
        u32::MAX
    } else {
        (units(b) / one()) as u32
    }
}

/// The biased exponent field of `b`.
pub fn exp_of(b: u32) -> (r: u32)
    ensures
        r == exp_field(b),
        r <= 255,
{
    (b % 0x8000_0000) / 0x80_0000
}

/// The fraction field of `b`.
pub fn mant_of(b: u32) -> (r: u32)
    ensures
        r == mant_field(b),
        r < 0x80_0000,
{
    b % 0x80_0000
}

proof fn lemma_units_bounds(b: u32)
    requires
        is_finite(b),
    ensures
        units(b) < 0x100_0000 * pow2(scale(b)),
        exp_field(b) > 0 ==> units(b) >= 0x80_0000 * pow2(scale(b)),
{
    lemma_pow2_pos(scale(b));
    assert(significand(b) < 0x100_0000);
    assert(units(b) < 0x100_0000 * pow2(scale(b))) by (nonlinear_arith)
        requires
            units(b) == significand(b) * pow2(scale(b)),
            significand(b) < 0x100_0000,
            pow2(scale(b)) > 0,
    ;
    if exp_field(b) > 0 {
        assert(units(b) >= 0x80_0000 * pow2(scale(b))) by (nonlinear_arith)
            requires
                units(b) == significand(b) * pow2(scale(b)),
                significand(b) >= 0x80_0000,
                pow2(scale(b)) > 0,
        ;
    }
}

/// `(s · 2^a) / 2^(a+k) == s / 2^k`.
proof fn lemma_div_pow2_shift(s: nat, a: nat, k: nat)
    ensures
        (s * pow2(a)) / pow2(a + k) == s / pow2(k),
{
    lemma_pow2_adds(a, k);
    lemma_pow2_pos(a);
    lemma_pow2_pos(k);
    lemma_div_denominator((s * pow2(a)) as int, pow2(a) as int, pow2(k) as int);
    lemma_div_multiples_vanish(s as int, pow2(a) as int);
    assert(pow2(a) * pow2(k) == pow2(a + k));
}

/// `(s · 2^(a+k)) / 2^a == s · 2^k`.
proof fn lemma_div_pow2_exact(s: nat, a: nat, k: nat)
    ensures
        (s * pow2(a + k)) / pow2(a) == s * pow2(k),
{
    lemma_pow2_adds(a, k);
    lemma_pow2_pos(a);
    assert(s * pow2(a + k) == (s * pow2(k)) * pow2(a)) by (nonlinear_arith)
        requires
            pow2(a + k) == pow2(a) * pow2(k),
    ;
    lemma_div_multiples_vanish((s * pow2(k)) as int, pow2(a) as int);
}

/// The value with its fraction dropped, saturated to the range of `u32`,
/// as Rust's `value as u32` converts.
pub fn f32_to_u32(b: u32) -> (r: u32)
    ensures
        r == to_u32_saturating(b),
{
    let e = exp_of(b);
    let m = mant_of(b);
    if e == 255 {
        if m != 0 || b >= 0x8000_0000 {
            return 0;
        }
        return u32::MAX;
    }
    if b >= 0x8000_0000 {
        return 0;
    }
    proof {
        lemma_units_bounds(b);
        lemma_pow2_pos(149);
    }
    if e < 127 {
        proof {
            let s = scale(b);
            assert(s <= 125);
            if s < 125 {
                lemma_pow2_strictly_increases(s, 125);
            }
            lemma_pow2_adds(24, 125);
            lemma2_to64();
            assert(units(b) < one()) by (nonlinear_arith)
                requires
                    units(b) < 0x100_0000 * pow2(s),
                    pow2(s) <= pow2(125),
                    one() == pow2(24) * pow2(125),
                    pow2(24) == 0x100_0000,
            ;
            vstd::arithmetic::div_mod::lemma_basic_div(units(b) as int, one() as int);
        }
        return 0;
    }
    let sig: u32 = m + 0x80_0000;
    assert(significand(b) == sig);
    assert(scale(b) == e - 1);
    if e >= 159 {
        proof {
            let s = scale(b);
            lemma_pow2_adds(149, (s - 149) as nat);
            lemma2_to64();
            if s - 149 > 9 {
                lemma_pow2_strictly_increases(9, (s - 149) as nat);
            }
            lemma_div_pow2_exact(sig as nat, 149, (s - 149) as nat);
            assert(units(b) / one() == sig * pow2((s - 149) as nat));
            assert(sig * pow2((s - 149) as nat) >= 0x1_0000_0000) by (nonlinear_arith)
                requires
                    sig >= 0x80_0000,
                    pow2((s - 149) as nat) >= 512,
            ;
        }
        return u32::MAX;
    }
    if e >= 150 {
        let sh: u64 = (e - 150) as u64;
        proof {
            lemma_div_pow2_exact(sig as nat, 149, sh as nat);
            assert(units(b) / one() == sig * pow2(sh as nat));
            lemma2_to64();
            if sh < 8 {
                lemma_pow2_strictly_increases(sh as nat, 8);
            }
            assert(sig * pow2(sh as nat) < 0x1_0000_0000) by (nonlinear_arith)
                requires
                    sig < 0x100_0000,
                    pow2(sh as nat) <= 0x100,
            ;
            lemma_u64_shl_is_mul(sig as u64, sh);
        }
        let v: u64 = (sig as u64) << sh;
        return v as u32;
    }
    let sh: u32 = 150 - e;
    proof {
        lemma_div_pow2_shift(sig as nat, scale(b), sh as nat);
        assert(scale(b) + sh == 149);
        lemma_u32_shr_is_div(sig, sh);
    }
    sig >> sh
}

/// `n / d` rounded to the nearest integer, a tie going to the even neighbour.
pub open spec fn round_half_even(n: nat, d: nat) -> nat {
    let q = n / d;
    let r = n % d;
    if 2 * r < d {
        q
    } else if 2 * r > d {
        q + 1
    } else if q % 2 == 0 {
        q
    } else {
        q + 1
    }
}

/// `10^p` for the precisions the forecast uses.
pub open spec fn pow10(p: nat) -> nat {
    if p == 0 {
        1
    } else {
        10
    }
}

/// The integer `q` read as a fixed-point number with `p` digits (none or one)
/// after the decimal point.
pub open spec fn fixed_point(q: nat, p: nat) -> Seq<char> {
    if p == 0 {
        decimal(q)
    } else {
        decimal(q / 10) + seq!['.'] + seq![digit_char(q % 10)]
    }
}

/// The value of `b` written with `p` digits (none or one) after the decimal
/// point, rounded half to even: `NaN`, `inf` with its sign, or the digits of
/// the rounded magnitude with a minus sign when the sign bit is set.
pub open spec fn fixed_text(b: u32, p: nat) -> Seq<char> {
    let sign: Seq<char> = if is_negative(b) { seq!['-'] } else { Seq::empty() };
    if is_nan(b) {
        seq!['N', 'a', 'N']
    } else if is_infinite(b) {
        sign + seq!['i', 'n', 'f']
    } else {
        sign + fixed_point(round_half_even(units(b) * pow10(p), one()), p)
    }
}

/// Scaling numerator and denominator by the same power of two keeps the
/// rounded quotient.
proof fn lemma_round_scaled(n: nat, k: nat, c: nat)
    ensures
        round_half_even(n * pow2(c), pow2(k + c)) == round_half_even(n, pow2(k)),
{
    let d = pow2(k);
    let f = pow2(c);
    lemma_pow2_pos(k);
    lemma_pow2_pos(c);
    lemma_pow2_adds(k, c);
    let q = n / d;
    let r = n % d;
    lemma_fundamental_div_mod(n as int, d as int);
    assert(n * f == q * (d * f) + r * f) by (nonlinear_arith)
        requires
            n == d * q + r,
    ;
    assert(0 <= r * f < d * f) by (nonlinear_arith)
        requires
            0 <= r < d,
            f > 0,
    ;
    lemma_fundamental_div_mod_converse((n * f) as int, (d * f) as int, q as int, (r * f) as int);
    assert(2 * r < d <==> 2 * (r * f) < d * f) by (nonlinear_arith)
        requires
            f > 0,
    ;
    assert(2 * r > d <==> 2 * (r * f) > d * f) by (nonlinear_arith)
        requires
            f > 0,
    ;
}

/// A multiple of the denominator rounds to its exact quotient.
proof fn lemma_round_exact(w: nat, d: nat)
    requires
        d > 0,
    ensures
        round_half_even(w * d, d) == w,
{
    lemma_fundamental_div_mod_converse((w * d) as int, d as int, w as int, 0);
}

/// `round_half_even(n, 2^k)` for a numerator below `2^28`.
fn round_pow2(n: u64, k: u32) -> (q: u64)
    requires
        n < 0x1000_0000,
    ensures
        q == round_half_even(n as nat, pow2(k as nat)),
        q <= 0x1000_0000,
{
    proof {
        lemma_pow2_pos(k as nat);
    }
    if k >= 30 {
        proof {
            if k > 30 {
                lemma_pow2_strictly_increases(30, k as nat);
            }
            lemma2_to64();
            vstd::arithmetic::div_mod::lemma_basic_div(n as int, pow2(k as nat) as int);
            vstd::arithmetic::div_mod::lemma_small_mod(n as nat, pow2(k as nat));
        }
        return 0;
    }
    proof {
        vstd::bits::lemma_u64_pow2_no_overflow(k as nat);
        vstd::bits::lemma_u64_shl_is_mul(1, k as u64);
        lemma_fundamental_div_mod(n as int, pow2(k as nat) as int);
    }
    let d: u64 = 1u64 << (k as u64);
    let q: u64 = n / d;
    let r: u64 = n % d;
    assert(q <= n) by (nonlinear_arith)
        requires
            q == n / d,
            d > 0,
    ;
    if 2 * r < d {
        q
    } else if 2 * r > d {
        q + 1
    } else if q % 2 == 0 {
        q
    } else {
        q + 1
    }
}

/// `sig · 2^sh` for a significand and a shift whose product stays below `2^128`.
fn shifted_u128(sig: u32, sh: u32) -> (w: u128)
    requires
        sig < 0x100_0000,
        sh <= 104,
    ensures
        w == sig * pow2(sh as nat),
{
    let mut w: u128 = sig as u128;
    let mut i: u32 = 0;
    proof {
        lemma2_to64();
    }
    while i < sh
        invariant
            i <= sh <= 104,
            sig < 0x100_0000,
            w == sig * pow2(i as nat),
            w < pow2((24 + i) as nat),
        decreases sh - i,
    {
        proof {
            vstd::arithmetic::power2::lemma_pow2_unfold((i + 1) as nat);
            vstd::arithmetic::power2::lemma_pow2_unfold((24 + i + 1) as nat);
            if 24 + i + 1 < 128 {
                lemma_pow2_strictly_increases((24 + i + 1) as nat, 128);
            }
            lemma_pow2_adds(64, 64);
            lemma2_to64();
            assert(pow2(128) == 0x1_0000_0000_0000_0000_0000_0000_0000_0000);
        }
        w = w * 2;
        i = i + 1;
        assert(w == sig * pow2(i as nat)) by (nonlinear_arith)
            requires
                w == 2 * (sig * pow2((i - 1) as nat)),
                pow2(i as nat) == 2 * pow2((i - 1) as nat),
        ;
    }
    w
}

/// Appends the value of `b` with `p` digits (none or one) after the decimal
/// point, as Rust's `{:.p}` formatting writes a single-precision value.
pub fn push_fixed(v: &mut Vec<char>, b: u32, p: u32)
    requires
        p <= 1,
    ensures
        final(v)@ == old(v)@ + fixed_text(b, p as nat),
{
    let e = exp_of(b);
    let m = mant_of(b);
    if e == 255 && m != 0 {
        v.push('N');
        v.push('a');
        v.push('N');
        return;
    }
    if b >= 0x8000_0000 {
        v.push('-');
    }
    let ghost signed = v@;
    if e == 255 {
        v.push('i');
        v.push('n');
        v.push('f');
        assert(v@ == old(v)@ + fixed_text(b, p as nat));
        return;
    }
    let sig: u32 = if e == 0 { m } else { m + 0x80_0000 };
    let s: u32 = if e == 0 { 0 } else { e - 1 };
    assert(sig == significand(b) && s == scale(b));
    let ghost target = round_half_even(units(b) * pow10(p as nat), one());
    if s >= 149 {
        let w = shifted_u128(sig, s - 149);
        proof {
            lemma_pow2_adds((s - 149) as nat, 149);
            assert(units(b) * pow10(p as nat) == (w * pow10(p as nat)) * one()) by (nonlinear_arith)
                requires
                    units(b) == sig * pow2(s as nat),
                    w == sig * pow2((s - 149) as nat),
                    pow2(s as nat) == pow2((s - 149) as nat) * one(),
            ;
            lemma_pow2_pos(149);
            lemma_round_exact((w * pow10(p as nat)) as nat, one());
        }
        push_decimal(v, w);
        if p == 1 {
            v.push('.');
            v.push('0');
            proof {
                assert((w * 10) / 10 == w && (w * 10) % 10 == 0) by (nonlinear_arith);
            }
        }
        assert(v@ == signed + fixed_point(target, p as nat));
    } else {
        let n: u64 = if p == 0 { sig as u64 } else { (sig as u64) * 10 };
        let k: u32 = 149 - s;
        let q = round_pow2(n, k);
        proof {
            lemma_round_scaled(n as nat, k as nat, s as nat);
            assert(n * pow2(s as nat) == units(b) * pow10(p as nat)) by (nonlinear_arith)
                requires
                    units(b) == sig * pow2(s as nat),
                    n == sig * pow10(p as nat),
            ;
        }
        if p == 0 {
            push_decimal(v, q as u128);
        } else {
            push_decimal(v, (q / 10) as u128);
            v.push('.');
            let d = digit((q % 10) as u128);
            v.push(d);
        }
        assert(v@ == signed + fixed_point(target, p as nat));
    }
}

/// The magnitude of `b` reduced modulo 360, in units: the exact remainder
/// that `%` computes for single-precision values.
pub open spec fn remainder_360(b: u32) -> nat {
    units(b) % (45 * pow2(152))
}

/// One if the remainder `m` has reached the value of the pattern `t`.
pub open spec fn reached(m: nat, t: u32) -> nat {
    if units(t) <= m {
        1
    } else {
        0
    }
}

/// One if the remainder `m` lies within the value of the pattern `t`.
pub open spec fn within(m: nat, t: u32) -> nat {
    if m <= units(t) {
        1
    } else {
        0
    }
}

/// For a non-negative reading with remainder `m`, the number of sector
/// boundaries passed: the least values (22.499998, 67.5, 112.49999, 157.5,
/// 202.5, 247.49998, 292.5, 337.5) from which the single-precision
/// `(m + 22.5) / 45` truncates to 1, 2, ..., 8.
pub open spec fn sectors_from_north(m: nat) -> nat {
    reached(m, 0x41b3_ffff) + reached(m, 0x4287_0000) + reached(m, 0x42e0_ffff)
        + reached(m, 0x431d_8000) + reached(m, 0x434a_8000) + reached(m, 0x4377_7fff)
        + reached(m, 0x4392_4000) + reached(m, 0x43a8_c000)
}

/// For a negative reading whose magnitude leaves the remainder `m > 0`, the
/// number of sector boundaries passed by `360 - m` in single precision: the
/// largest remainders (337.5, 292.5, 247.5, 202.5, 157.5, 112.50002,
/// 67.50002, 22.500015) for which `((360 - m) + 22.5) / 45` still truncates
/// to 1, 2, ..., 8.
pub open spec fn sectors_from_north_negative(m: nat) -> nat {
    within(m, 0x43a8_c000) + within(m, 0x4392_4000) + within(m, 0x4377_8000)
        + within(m, 0x434a_8000) + within(m, 0x431d_8000) + within(m, 0x42e1_0002)
        + within(m, 0x4287_0002) + within(m, 0x41b4_0008)
}

/// The compass sector (0 = N, 1 = NE, ..., 7 = NW) of a finite wind
/// direction in degrees, as `((d.rem_euclid(360) + 22.5) / 45) as u32 % 8`
/// computes it in single precision.
pub open spec fn wind_sector(b: u32) -> nat {
    let m = remainder_360(b);
    if is_negative(b) && m > 0 {
        sectors_from_north_negative(m) % 8
    } else {
        sectors_from_north(m) % 8
    }
}

/// `(a · c) mod (d · c) == (a mod d) · c`.
proof fn lemma_mod_common_factor(a: nat, d: nat, c: nat)
    requires
        d > 0,
        c > 0,
    ensures
        (a * c) % (d * c) == (a % d) * c,
{
    vstd::arithmetic::div_mod::lemma_truncate_middle(a as int, c as int, d as int);
    assert(a * c == c * a && d * c == c * d && (a % d) * c == c * (a % d)) by (nonlinear_arith);
}

/// The remainder of `sig · 2^s` modulo `45 · 2^152`, as a significand and a
/// scale.
fn remainder_parts(sig: u32, s: u32) -> (r: (u32, u32))
    requires
        sig < 0x100_0000,
        s <= 253,
    ensures
        r.0 * pow2(r.1 as nat) == ((sig * pow2(s as nat)) as nat) % (45 * pow2(152)),
        r.0 < 0x100_0000,
        r.1 <= 152,
{
    proof {
        lemma_pow2_pos(152);
        lemma_pow2_pos(s as nat);
    }
    if s >= 152 {
        let mut t: u32 = sig % 45;
        let mut i: u32 = 152;
        proof {
            lemma2_to64();
            assert(sig * pow2(0) == sig);
        }
        while i < s
            invariant
                152 <= i <= s,
                t < 45,
                t == (sig * pow2((i - 152) as nat)) % 45,
            decreases s - i,
        {
            proof {
                vstd::arithmetic::power2::lemma_pow2_unfold((i + 1 - 152) as nat);
                vstd::arithmetic::div_mod::lemma_mul_mod_noop_right(
                    2,
                    (sig * pow2((i - 152) as nat)) as int,
                    45,
                );
                assert(2 * (sig * pow2((i - 152) as nat)) == sig * pow2((i + 1 - 152) as nat))
                    by (nonlinear_arith)
                    requires
                        pow2((i + 1 - 152) as nat) == 2 * pow2((i - 152) as nat),
                ;
            }
            t = (2 * t) % 45;
            i = i + 1;
        }
        proof {
            lemma_pow2_adds((s - 152) as nat, 152);
            lemma_mod_common_factor((sig * pow2((s - 152) as nat)) as nat, 45, pow2(152));
            assert(sig * pow2(s as nat) == (sig * pow2((s - 152) as nat)) * pow2(152))
                by (nonlinear_arith)
                requires
                    pow2(s as nat) == pow2((s - 152) as nat) * pow2(152),
            ;
        }
        (t, 152)
    } else if s >= 134 {
        proof {
            if 152 - s < 18 {
                lemma_pow2_strictly_increases((152 - s) as nat, 18);
            }
            lemma2_to64();
            assert(45 * pow2((152 - s) as nat) <= 45 * 0x4_0000);
            vstd::bits::lemma_u32_shl_is_mul(45, (152 - s) as u32);
        }
        let d: u32 = 45u32 << (152 - s);
        let q: u32 = sig % d;
        proof {
            lemma_pow2_adds((152 - s) as nat, s as nat);
            lemma_mod_common_factor(sig as nat, d as nat, pow2(s as nat));
            assert(d * pow2(s as nat) == 45 * pow2(152)) by (nonlinear_arith)
                requires
                    d == 45 * pow2((152 - s) as nat),
                    pow2(152) == pow2((152 - s) as nat) * pow2(s as nat),
            ;
        }
        (q, s)
    } else {
        proof {
            lemma_pow2_adds(24, s as nat);
            lemma_pow2_adds(5, 152);
            if s < 133 {
                lemma_pow2_strictly_increases((24 + s) as nat, 157);
            }
            lemma2_to64();
            assert(sig * pow2(s as nat) < 45 * pow2(152)) by (nonlinear_arith)
                requires
                    sig < pow2(24),
                    pow2((24 + s) as nat) == pow2(24) * pow2(s as nat),
                    pow2((24 + s) as nat) <= pow2(157),
                    pow2(157) == pow2(5) * pow2(152),
                    pow2(5) == 32,
                    pow2(s as nat) > 0,
            ;
            vstd::arithmetic::div_mod::lemma_small_mod(
                (sig * pow2(s as nat)) as nat,
                45 * pow2(152),
            );
        }
        (sig, s)
    }
}

/// Compares `msig · 2^mscale` with the value of the positive normal pattern
/// `t` by two integers at a common scale.
fn common_scale(msig: u32, mscale: u32, t: u32) -> (r: (u64, u64))
    requires
        msig < 0x100_0000,
        mscale <= 152,
        t < 0x7f80_0000,
        exp_field(t) >= 131,
    ensures
        (r.0 <= r.1) == (msig * pow2(mscale as nat) <= units(t)),
        (r.1 <= r.0) == (units(t) <= msig * pow2(mscale as nat)),
{
    let te = exp_of(t);
    let tsig: u32 = mant_of(t) + 0x80_0000;
    let tscale: u32 = te - 1;
    assert(significand(t) == tsig && scale(t) == tscale);
    proof {
        lemma_pow2_pos(mscale as nat);
        lemma_pow2_pos(tscale as nat);
    }
    if mscale < tscale {
        proof {
            lemma_pow2_adds(24, mscale as nat);
            lemma_pow2_adds(23, tscale as nat);
            if 24 + mscale < 23 + tscale {
                lemma_pow2_strictly_increases((24 + mscale) as nat, (23 + tscale) as nat);
            }
            lemma2_to64();
            assert(msig * pow2(mscale as nat) < units(t)) by (nonlinear_arith)
                requires
                    msig < pow2(24),
                    tsig >= pow2(23),
                    units(t) == tsig * pow2(tscale as nat),
                    pow2((24 + mscale) as nat) == pow2(24) * pow2(mscale as nat),
                    pow2((23 + tscale) as nat) == pow2(23) * pow2(tscale as nat),
                    pow2((24 + mscale) as nat) <= pow2((23 + tscale) as nat),
                    pow2(mscale as nat) > 0,
                    pow2(tscale as nat) > 0,
            ;
        }
        return (0, 1);
    }
    let sh: u64 = (mscale - tscale) as u64;
    proof {
        lemma2_to64();
        if sh < 22 {
            lemma_pow2_strictly_increases(sh as nat, 22);
        }
        assert(msig * pow2(sh as nat) < 0x40_0000_0000_0000) by (nonlinear_arith)
            requires
                msig < 0x100_0000,
                pow2(sh as nat) <= 0x40_0000,
        ;
        lemma_u64_shl_is_mul(msig as u64, sh);
        lemma_pow2_adds(sh as nat, tscale as nat);
    }
    let a: u64 = (msig as u64) << sh;
    proof {
        let f = pow2(tscale as nat);
        assert(msig * pow2(mscale as nat) == a * f) by (nonlinear_arith)
            requires
                a == msig * pow2(sh as nat),
                pow2(mscale as nat) == pow2(sh as nat) * f,
        ;
        assert((a <= tsig) == (a * f <= tsig * f)) by (nonlinear_arith)
            requires
                f > 0,
        ;
        assert((tsig <= a) == (tsig * f <= a * f)) by (nonlinear_arith)
            requires
                f > 0,
        ;
    }
    (a, tsig as u64)
}

fn reached_exec(msig: u32, mscale: u32, t: u32) -> (r: u32)
    requires
        msig < 0x100_0000,
        mscale <= 152,
        t < 0x7f80_0000,
        exp_field(t) >= 131,
    ensures
        r == reached((msig * pow2(mscale as nat)) as nat, t),
{
    let (a, c) = common_scale(msig, mscale, t);
    if c <= a {
        1
    } else {
        0
    }
}

fn within_exec(msig: u32, mscale: u32, t: u32) -> (r: u32)
    requires
        msig < 0x100_0000,
        mscale <= 152,
        t < 0x7f80_0000,
        exp_field(t) >= 131,
    ensures
        r == within((msig * pow2(mscale as nat)) as nat, t),
{
    let (a, c) = common_scale(msig, mscale, t);
    if a <= c {
        1
    } else {
        0
    }
}

/// The compass sector (0 = N, 1 = NE, ..., 7 = NW) of a finite wind
/// direction in degrees.
pub fn compass_sector(degrees: u32) -> (r: u32)
    requires
        is_finite(degrees),
    ensures
        r == wind_sector(degrees),
        r < 8,
{
    let e = exp_of(degrees);
    let m = mant_of(degrees);
    let sig: u32 = if e == 0 { m } else { m + 0x80_0000 };
    let s: u32 = if e == 0 { 0 } else { e - 1 };
    assert(sig == significand(degrees) && s == scale(degrees));
    let (ms, sc) = remainder_parts(sig, s);
    let ghost rem = remainder_360(degrees);
    assert(ms * pow2(sc as nat) == rem);
    let count: u32;
    if degrees >= 0x8000_0000 && ms != 0 {
        proof {
            lemma_pow2_pos(sc as nat);
            assert(rem > 0) by (nonlinear_arith)
                requires
                    rem == ms * pow2(sc as nat),
                    ms > 0,
                    pow2(sc as nat) > 0,
            ;
        }
        count = within_exec(ms, sc, 0x43a8_c000) + within_exec(ms, sc, 0x4392_4000)
            + within_exec(ms, sc, 0x4377_8000) + within_exec(ms, sc, 0x434a_8000)
            + within_exec(ms, sc, 0x431d_8000) + within_exec(ms, sc, 0x42e1_0002)
            + within_exec(ms, sc, 0x4287_0002) + within_exec(ms, sc, 0x41b4_0008);
        assert(count == sectors_from_north_negative(rem));
    } else {
        assert(ms == 0 ==> rem == 0) by {
            if ms == 0 {
                assert(ms * pow2(sc as nat) == 0) by (nonlinear_arith)
                    requires
                        ms == 0,
                ;
            }
        }
        count = reached_exec(ms, sc, 0x41b3_ffff) + reached_exec(ms, sc, 0x4287_0000)
            + reached_exec(ms, sc, 0x42e0_ffff) + reached_exec(ms, sc, 0x431d_8000)
            + reached_exec(ms, sc, 0x434a_8000) + reached_exec(ms, sc, 0x4377_7fff)
            + reached_exec(ms, sc, 0x4392_4000) + reached_exec(ms, sc, 0x43a8_c000);
        assert(count == sectors_from_north(rem));
    }
    assert(count % 8 == wind_sector(degrees));
    count % 8
}

/// Whether the value of `b` is greater than zero (positive infinity included).
pub open spec fn greater_than_zero(b: u32) -> bool {
    !is_nan(b) && !is_negative(b) && (is_infinite(b) || units(b) > 0)
}

/// Among finite non-negative patterns, a larger pattern has a larger value.
proof fn lemma_units_increasing(x: u32, y: u32)
    requires
        x < y < 0x7f80_0000,
    ensures
        units(x) < units(y),
{
    assert(exp_field(x) == x / 0x80_0000 && exp_field(y) == y / 0x80_0000);
    assert(mant_field(x) == x % 0x80_0000 && mant_field(y) == y % 0x80_0000);
    lemma_units_bounds(x);
    lemma_units_bounds(y);
    lemma_pow2_pos(scale(x));
    lemma_pow2_pos(scale(y));
    if exp_field(x) == exp_field(y) {
        assert(mant_field(x) < mant_field(y));
        assert(units(x) < units(y)) by (nonlinear_arith)
            requires
                units(x) == significand(x) * pow2(scale(x)),
                units(y) == significand(y) * pow2(scale(x)),
                significand(x) < significand(y),
                pow2(scale(x)) > 0,
        ;
    } else {
        assert(exp_field(x) < exp_field(y));
        if exp_field(x) == 0 {
            lemma2_to64();
            assert(scale(x) == 0 && significand(x) == mant_field(x));
            assert(units(x) == mant_field(x)) by (nonlinear_arith)
                requires
                    units(x) == significand(x) * pow2(scale(x)),
                    significand(x) == mant_field(x),
                    pow2(scale(x)) == 1,
            ;
            assert(units(x) < units(y)) by (nonlinear_arith)
                requires
                    units(x) < 0x80_0000,
                    units(y) >= 0x80_0000 * pow2(scale(y)),
                    pow2(scale(y)) > 0,
            ;
        } else {
            let d = (scale(y) - scale(x) - 1) as nat;
            lemma_pow2_adds(scale(x) + 1, d);
            lemma_pow2_adds(scale(x), 1);
            lemma_pow2_pos(d);
            lemma2_to64();
            assert(units(x) < units(y)) by (nonlinear_arith)
                requires
                    units(x) < 0x100_0000 * pow2(scale(x)),
                    units(y) >= 0x80_0000 * pow2(scale(y)),
                    pow2(scale(y)) == pow2(scale(x) + 1) * pow2(d),
                    pow2(scale(x) + 1) == pow2(scale(x)) * 2,
                    pow2(d) >= 1,
                    pow2(scale(x)) > 0,
            ;
        }
    }
}

/// The pattern with the sign bit cleared has the same magnitude.
proof fn lemma_magnitude_units(b: u32)
    ensures
        units((b % 0x8000_0000) as u32) == units(b),
        exp_field((b % 0x8000_0000) as u32) == exp_field(b),
{
    let a = (b % 0x8000_0000) as u32;
    assert(a % 0x8000_0000 == b % 0x8000_0000) by (bit_vector)
        requires
            a == b % 0x8000_0000,
    ;
    assert(a % 0x80_0000 == b % 0x80_0000) by (bit_vector)
        requires
            a == b % 0x8000_0000,
    ;
}

/// Whether `b` is finite with a magnitude no larger than that of the
/// positive finite pattern `limit`.
pub fn magnitude_at_most(b: u32, limit: u32) -> (r: bool)
    requires
        limit < 0x7f80_0000,
    ensures
        r == (is_finite(b) && units(b) <= units(limit)),
{
    let a: u32 = b % 0x8000_0000;
    proof {
        lemma_magnitude_units(b);
        assert(limit % 0x8000_0000 == limit);
        if a < limit {
            lemma_units_increasing(a, limit);
        } else if a > limit && a < 0x7f80_0000 {
            lemma_units_increasing(limit, a);
        }
        assert(is_finite(b) == (a < 0x7f80_0000));
    }
    a <= limit
}

/// Whether the value of `b` is greater than zero, as `value > 0.0` decides.
pub fn is_greater_than_zero(b: u32) -> (r: bool)
    ensures
        r == greater_than_zero(b),
{
    proof {
        if 0 < b && b < 0x7f80_0000 {
            lemma_units_increasing(0, b);
        }
        if b == 0 {
            assert(exp_field(0) == 0 && mant_field(0) == 0);
            assert(significand(0) == 0);
            assert(units(0) == 0) by (nonlinear_arith)
                requires
                    units(0) == significand(0) * pow2(scale(0)),
                    significand(0) == 0,
            ;
        }
    }
    0 < b && b <= 0x7f80_0000
}

} // verus!
