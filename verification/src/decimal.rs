//! Exact decimal multipliers for numeric registers.
//!
//! A register schema may attach a decimal multiplier to a numeric kind; the
//! parsed raw value is multiplied by it and rounded back to the register's
//! integer type. The multiplier is an exact decimal `mantissa * 10^-scale`,
//! the product is computed in full precision, rounded half away from zero,
//! and clamped to the target type's range.

use vstd::arithmetic::div_mod::lemma_basic_div;
use vstd::prelude::*;

verus! {

/// An exact decimal number `mantissa * 10^-scale`.
#[derive(Debug, Clone, Copy, PartialEq, Eq, Structural)]
pub struct Decimal {
    pub mantissa: i64,
    pub scale: u32,
}

/// Scales large enough for any 64-bit register; keeps intermediate
/// arithmetic inside 128 bits.
pub open spec fn wf_decimal(d: Decimal) -> bool {
    d.scale <= 18
}

pub open spec fn wf_decimal_opt(m: Option<Decimal>) -> bool {
    match m {
        None => true,
        Some(d) => wf_decimal(d),
    }
}

pub open spec fn pow10(e: nat) -> nat
    decreases e,
{
    if e == 0 {
        1
    } else {
        10 * pow10((e - 1) as nat)
    }
}

/// Division rounding half away from zero; meaningful for `d > 0`.
pub open spec fn round_div(p: int, d: int) -> int {
    if p >= 0 {
        (p + d / 2) / d
    } else {
        -((-p + d / 2) / d)
    }
}

/// The scaled value of `v` under multiplier `m`, before clamping.
pub open spec fn scale_value(v: int, m: Decimal) -> int {
    round_div(v * m.mantissa, pow10(m.scale as nat) as int)
}

pub open spec fn clamp(v: int, lo: int, hi: int) -> int {
    if v < lo {
        lo
    } else if v > hi {
        hi
    } else {
        v
    }
}

/// What a parsed raw value becomes in a register of range `lo..=hi` under an
/// optional multiplier: unchanged without one, scaled and clamped with one.
pub open spec fn scaled(v: int, m: Option<Decimal>, lo: int, hi: int) -> int {
    match m {
        None => v,
        Some(d) => clamp(scale_value(v, d), lo, hi),
    }
}

pub proof fn lemma_pow10_values()
    ensures
        pow10(18) == 1_000_000_000_000_000_000,
{
    reveal_with_fuel(pow10, 19);
}

pub proof fn lemma_pow10_monotone(m: nat, n: nat)
    requires
        m <= n,
    ensures
        1 <= pow10(m) <= pow10(n),
    decreases n,
{
    if n > 0 {
        if m < n {
            lemma_pow10_monotone(m, (n - 1) as nat);
        } else {
            lemma_pow10_monotone((m - 1) as nat, (n - 1) as nat);
        }
    }
}

fn pow10_u64(e: u32) -> (r: u64)
    requires
        e <= 18,
    ensures
        r as nat == pow10(e as nat),
        r >= 1,
{
    let mut r: u64 = 1;
    let mut i: u32 = 0;
    while i < e
        invariant
            i <= e <= 18,
            r as nat == pow10(i as nat),
        decreases e - i,
    {
        proof {
            lemma_pow10_monotone((i + 1) as nat, 18);
            lemma_pow10_values();
        }
        r = r * 10;
        i = i + 1;
    }
    proof {
        lemma_pow10_monotone(0, e as nat);
    }
    r
}

/// `round_div` over magnitudes: `|v * mantissa| / 10^scale`, rounded half
/// away from zero.
fn scale_magnitude(v_mag: u128, m_mag: u128, scale: u32) -> (q: u128)
    requires
        v_mag <= u64::MAX,
        m_mag <= 0x8000_0000_0000_0000u128,
        scale <= 18,
    ensures
        q as int == round_div(v_mag as int * m_mag as int, pow10(scale as nat) as int),
{
    proof {
        assert(v_mag as int * m_mag as int <= 0xFFFF_FFFF_FFFF_FFFF * 0x8000_0000_0000_0000int)
            by (nonlinear_arith)
            requires
                v_mag <= 0xFFFF_FFFF_FFFF_FFFFu128,
                m_mag <= 0x8000_0000_0000_0000u128,
        ;
        assert(v_mag as int * m_mag as int >= 0) by (nonlinear_arith)
            requires
                v_mag >= 0,
                m_mag >= 0,
        ;
    }
    let p = v_mag * m_mag;
    let d = pow10_u64(scale) as u128;
    (p + d / 2) / d
}

/// Magnitude and sign of an `i64`.
fn magnitude_i64(v: i64) -> (r: (bool, u64))
    ensures
        r.0 == (v < 0),
        r.1 as int == if v < 0 {
            -(v as int)
        } else {
            v as int
        },
{
    if v < 0 {
        (true, (-(v as i128)) as u64)
    } else {
        (false, v as u64)
    }
}

/// A signed product splits into the product of the magnitudes and the
/// exclusive-or of the signs.
proof fn lemma_product_magnitude(sv: int, ma: int, vmag: int, mmag: int)
    requires
        vmag == if sv < 0 {
            -sv
        } else {
            sv
        },
        mmag == if ma < 0 {
            -ma
        } else {
            ma
        },
    ensures
        sv * ma == if (sv < 0) != (ma < 0) {
            -(vmag * mmag)
        } else {
            vmag * mmag
        },
{
    assert(sv * ma == if (sv < 0) != (ma < 0) {
        -(vmag * mmag)
    } else {
        vmag * mmag
    }) by (nonlinear_arith)
        requires
            vmag == if sv < 0 {
                -sv
            } else {
                sv
            },
            mmag == if ma < 0 {
                -ma
            } else {
                ma
            },
    ;
}

/// Clamp a sign-and-magnitude result into an unsigned range `0..=max`.
fn clamp_unsigned(neg: bool, q: u128, max: u64) -> (r: u64)
    ensures
        r as int == clamp(
            if neg {
                -(q as int)
            } else {
                q as int
            },
            0,
            max as int,
        ),
{
    if neg {
        0
    } else if q > max as u128 {
        max
    } else {
        q as u64
    }
}

/// Clamp a sign-and-magnitude result into the signed range `-(max+1)..=max`.
fn clamp_signed(neg: bool, q: u128, max: i64) -> (r: i64)
    requires
        max > 0,
    ensures
        r as int == clamp(
            if neg {
                -(q as int)
            } else {
                q as int
            },
            -(max as int) - 1,
            max as int,
        ),
{
    if neg {
        if q > max as u128 {
            // everything at or past the magnitude of the minimum clamps there
            if q == max as u128 + 1 {
                proof {
                    assert(-(q as int) == -(max as int) - 1);
                }
            }
            -max - 1
        } else {
            -(q as i64)
        }
    } else {
        if q > max as u128 {
            max
        } else {
            q as i64
        }
    }
}

/// Scaled and clamped value of an unsigned raw value, as sign and magnitude.
fn scale_unsigned_parts(v: u64, d: &Decimal) -> (r: (bool, u128))
    requires
        wf_decimal(*d),
    ensures
        scale_value(v as int, *d) == if r.0 {
            -(r.1 as int)
        } else {
            r.1 as int
        },
{
    let (m_neg, m_mag) = magnitude_i64(d.mantissa);
    let q = scale_magnitude(v as u128, m_mag as u128, d.scale);
    proof {
        lemma_product_magnitude(v as int, d.mantissa as int, v as int, m_mag as int);
        lemma_pow10_monotone(0, d.scale as nat);
        assert(v as int * m_mag as int >= 0) by (nonlinear_arith)
            requires
                v >= 0,
                m_mag >= 0,
        ;
        lemma_round_div_neg(v as int * m_mag as int, pow10(d.scale as nat) as int);
    }
    (m_neg, q)
}

/// Scaled and clamped value of a signed raw value, as sign and magnitude.
fn scale_signed_parts(v: i64, d: &Decimal) -> (r: (bool, u128))
    requires
        wf_decimal(*d),
    ensures
        scale_value(v as int, *d) == if r.0 {
            -(r.1 as int)
        } else {
            r.1 as int
        },
{
    let (v_neg, v_mag) = magnitude_i64(v);
    let (m_neg, m_mag) = magnitude_i64(d.mantissa);
    let q = scale_magnitude(v_mag as u128, m_mag as u128, d.scale);
    proof {
        lemma_product_magnitude(v as int, d.mantissa as int, v_mag as int, m_mag as int);
        lemma_pow10_monotone(0, d.scale as nat);
        assert(v_mag as int * m_mag as int >= 0) by (nonlinear_arith)
            requires
                v_mag >= 0,
                m_mag >= 0,
        ;
        lemma_round_div_neg(v_mag as int * m_mag as int, pow10(d.scale as nat) as int);
    }
    (v_neg != m_neg, q)
}

/// Negating the dividend negates the rounded quotient.
proof fn lemma_round_div_neg(p: int, d: int)
    requires
        p >= 0,
        d >= 1,
    ensures
        round_div(-p, d) == -round_div(p, d),
{
    if p == 0 {
        lemma_basic_div(d / 2, d);
    }
}

/// Apply an optional multiplier to a `u64` register value.
pub fn scale_u64(v: u64, m: &Option<Decimal>) -> (r: u64)
    requires
        wf_decimal_opt(*m),
    ensures
        r as int == scaled(v as int, *m, 0, u64::MAX as int),
{
    match m {
        None => v,
        Some(d) => {
            let (neg, q) = scale_unsigned_parts(v, d);
            clamp_unsigned(neg, q, u64::MAX)
        },
    }
}

/// Apply an optional multiplier to a `u32` register value.
pub fn scale_u32(v: u32, m: &Option<Decimal>) -> (r: u32)
    requires
        wf_decimal_opt(*m),
    ensures
        r as int == scaled(v as int, *m, 0, u32::MAX as int),
{
    match m {
        None => v,
        Some(d) => {
            let (neg, q) = scale_unsigned_parts(v as u64, d);
            clamp_unsigned(neg, q, u32::MAX as u64) as u32
        },
    }
}

/// Apply an optional multiplier to a `u16` register value.
pub fn scale_u16(v: u16, m: &Option<Decimal>) -> (r: u16)
    requires
        wf_decimal_opt(*m),
    ensures
        r as int == scaled(v as int, *m, 0, u16::MAX as int),
{
    match m {
        None => v,
        Some(d) => {
            let (neg, q) = scale_unsigned_parts(v as u64, d);
            clamp_unsigned(neg, q, u16::MAX as u64) as u16
        },
    }
}

/// Apply an optional multiplier to an `i64` register value.
pub fn scale_i64(v: i64, m: &Option<Decimal>) -> (r: i64)
    requires
        wf_decimal_opt(*m),
    ensures
        r as int == scaled(v as int, *m, i64::MIN as int, i64::MAX as int),
{
    match m {
        None => v,
        Some(d) => {
            let (neg, q) = scale_signed_parts(v, d);
            clamp_signed(neg, q, i64::MAX)
        },
    }
}

/// Apply an optional multiplier to an `i32` register value.
pub fn scale_i32(v: i32, m: &Option<Decimal>) -> (r: i32)
    requires
        wf_decimal_opt(*m),
    ensures
        r as int == scaled(v as int, *m, i32::MIN as int, i32::MAX as int),
{
    match m {
        None => v,
        Some(d) => {
            let (neg, q) = scale_signed_parts(v as i64, d);
            clamp_signed(neg, q, i32::MAX as i64) as i32
        },
    }
}

/// Apply an optional multiplier to an `i16` register value.
pub fn scale_i16(v: i16, m: &Option<Decimal>) -> (r: i16)
    requires
        wf_decimal_opt(*m),
    ensures
        r as int == scaled(v as int, *m, i16::MIN as int, i16::MAX as int),
{
    match m {
        None => v,
        Some(d) => {
            let (neg, q) = scale_signed_parts(v as i64, d);
            clamp_signed(neg, q, i16::MAX as i64) as i16
        },
    }
}

} // verus!
