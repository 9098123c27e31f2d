//! The integer datapath of Gemmini: rounding shifts, saturation to bytes,
//! activations, and the integer approximations of GELU and of the
//! exponential that the normalisation unit uses.
use vstd::prelude::*;
use vstd::arithmetic::power2::{
    pow2,
    lemma_pow2_adds,
    lemma_pow2_pos,
    lemma_pow2_strictly_increases,
    lemma_pow2_unfold,
    lemma2_to64,
};
use vstd::arithmetic::div_mod::{lemma_fundamental_div_mod, lemma_fundamental_div_mod_converse};
use crate::arch::gemmini::gemmini::{Activation, Gemmini, NormCmd};

verus! {

/// `pow2(n)` is at most `2^31` for `n <= 31`.
proof fn lemma_pow2_le_31(n: nat)
    requires
        n <= 31,
    ensures
        1 <= pow2(n) <= 0x8000_0000,
{
    lemma2_to64();
    lemma_pow2_pos(n);
    if n < 31 {
        lemma_pow2_strictly_increases(n, 31);
    }
}

/// `2^n` for `n <= 31`.
fn pow2_u64(n: u32) -> (p: u64)
    requires
        n <= 31,
    ensures
        p == pow2(n as nat),
        1 <= p <= 0x8000_0000,
{
    proof {
        lemma2_to64();
    }
    let mut p: u64 = 1;
    let mut i: u32 = 0;
    while i < n
        invariant
            i <= n <= 31,
            p == pow2(i as nat),
        decreases n - i,
    {
        proof {
            lemma_pow2_le_31(i as nat);
            lemma_pow2_unfold((i + 1) as nat);
        }
        p = p * 2;
        i = i + 1;
    }
    proof {
        lemma_pow2_le_31(n as nat);
    }
    p
}

/// The floor quotient and the remainder of `x` by `2^s`.
fn floor_div_pow2(x: i32, s: u32) -> (res: (i64, u64))
    requires
        s <= 31,
    ensures
        res.0 == x as int / pow2(s as nat) as int,
        res.1 == x as int % pow2(s as nat) as int,
        s >= 1 ==> -0x4000_0000 <= res.0 < 0x4000_0000,
        -0x8000_0000 <= res.0 < 0x8000_0000,
{
    let p = pow2_u64(s);
    let u: u64 = (x as i64 + 0x8000_0000i64) as u64;
    let q1: u64 = u / p;
    let r: u64 = u % p;
    let m: u64 = 0x8000_0000u64 / p;
    proof {
        lemma2_to64();
        lemma_pow2_adds(s as nat, (31 - s) as nat);
        let e: int = pow2((31 - s) as nat) as int;
        assert(0x8000_0000 == e * p);
        lemma_fundamental_div_mod_converse(0x8000_0000, p as int, e, 0);
        assert(m == e);
        lemma_fundamental_div_mod(u as int, p as int);
        assert(x as int == (q1 as int - m as int) * p as int + r as int) by (nonlinear_arith)
            requires
                u as int == p as int * (u as int / p as int) + u as int % p as int,
                q1 == u as int / p as int,
                r == u as int % p as int,
                0x8000_0000 == m * p,
                u as int == x as int + 0x8000_0000,
        ;
        lemma_fundamental_div_mod_converse(x as int, p as int, q1 as int - m as int, r as int);
        assert(-0x8000_0000 <= (q1 as int - m as int) < 0x8000_0000) by (nonlinear_arith)
            requires
                x as int == (q1 as int - m as int) * p as int + r as int,
                0 <= r < p,
                1 <= p,
                -0x8000_0000 <= x < 0x8000_0000,
        ;
        if s >= 1 {
            lemma_pow2_unfold(s as nat);
            lemma_pow2_pos((s - 1) as nat);
            assert(-0x4000_0000 <= (q1 as int - m as int) < 0x4000_0000) by (nonlinear_arith)
                requires
                    x as int == (q1 as int - m as int) * p as int + r as int,
                    0 <= r < p,
                    2 <= p,
                    -0x8000_0000 <= x < 0x8000_0000,
            ;
        }
    }
    (q1 as i64 - m as i64, r)
}

/// `x` divided by `2^shift` and rounded half to even for a positive
/// `shift`; `x` times `2^-shift`, wrapped to 32 bits, for a negative one.
pub open spec fn rounded_shift(x: i32, shift: i32) -> int {
    if shift > 0 {
        let p = pow2(shift as nat) as int;
        let q = x as int / p;
        let r = x as int % p;
        if 2 * r > p || (2 * r == p && q % 2 == 1) {
            q + 1
        } else {
            q
        }
    } else if shift < 0 {
        ((x as int * pow2((-shift) as nat) as int) as i32) as int
    } else {
        x as int
    }
}

/// A positive shift rounds to the nearest multiple: the result times `2^shift`
/// is within half of `2^shift` of `x`, and a tie goes to the even result.
pub proof fn lemma_rounded_shift_nearest(x: i32, shift: i32)
    requires
        0 < shift < 32,
    ensures
        ({
            let p = pow2(shift as nat) as int;
            let d = rounded_shift(x, shift) * p - x;
            &&& -p <= 2 * d <= p
            &&& (2 * d == p || 2 * d == -p) ==> rounded_shift(x, shift) % 2 == 0
        }),
{
    let p = pow2(shift as nat) as int;
    lemma_pow2_pos(shift as nat);
    let q = x as int / p;
    let r = x as int % p;
    lemma_fundamental_div_mod(x as int, p);
    assert((q + 1) * p == q * p + p) by (nonlinear_arith);
    assert(x as int == q * p + r) by (nonlinear_arith)
        requires
            x as int == p * (x as int / p) + x as int % p,
            q == x as int / p,
            r == x as int % p,
    ;
}

/// `v` saturated to the range of a byte.
pub open spec fn saturate_i8(v: int) -> i8 {
    if v < -128 {
        -128i8
    } else if v > 127 {
        127i8
    } else {
        v as i8
    }
}

/// `value` after the activation `act`; only RELU changes a byte.
pub open spec fn activated(value: i8, act: Activation) -> i8 {
    if act == Activation::RELU && value <= 0 {
        0i8
    } else {
        value
    }
}

/// `a` divided by the positive `b`, rounded toward zero.
pub open spec fn trunc_div(a: int, b: int) -> int {
    if a >= 0 {
        a / b
    } else {
        -((-a) / b)
    }
}

/// Saturation keeps a value that fits a byte, never leaves the byte's range,
/// and keeps the order of values.
pub proof fn lemma_saturate_i8_clamps(v: int, w: int)
    ensures
        -128 <= v <= 127 ==> saturate_i8(v) == v,
        v <= w ==> saturate_i8(v) <= saturate_i8(w),
        v < -128 ==> saturate_i8(v) == -128,
        v > 127 ==> saturate_i8(v) == 127,
{
}

/// RELU gives no negative byte and keeps every positive one; the other
/// activations leave a byte as it is.
pub proof fn lemma_activated_relu(value: i8, act: Activation)
    ensures
        act == Activation::RELU ==> activated(value, act) >= 0,
        act == Activation::RELU && value > 0 ==> activated(value, act) == value,
        act != Activation::RELU ==> activated(value, act) == value,
        activated(value, act) == value || activated(value, act) == 0,
{
}

/// Division toward zero is odd in its dividend and never rounds away from
/// zero: the quotient times the divisor lies between zero and the
/// dividend.
pub proof fn lemma_trunc_div_toward_zero(a: int, b: int)
    requires
        b > 0,
    ensures
        trunc_div(-a, b) == -trunc_div(a, b),
        a >= 0 ==> 0 <= trunc_div(a, b) * b <= a,
        a <= 0 ==> a <= trunc_div(a, b) * b <= 0,
        a >= 0 ==> a - trunc_div(a, b) * b < b,
        a <= 0 ==> trunc_div(a, b) * b - a < b,
{
    if a > 0 {
        assert(trunc_div(-a, b) == -(a / b));
    } else if a < 0 {
        assert(-(-a) == a);
    }
    vstd::arithmetic::div_mod::lemma_fundamental_div_mod(a, b);
    vstd::arithmetic::div_mod::lemma_fundamental_div_mod(-a, b);
    assert(0 <= a % b < b);
    assert(0 <= (-a) % b < b);
    assert((a / b) * b == b * (a / b)) by (nonlinear_arith);
    assert(((-a) / b) * b == b * ((-a) / b)) by (nonlinear_arith);
    assert((-((-a) / b)) * b == -(b * ((-a) / b))) by (nonlinear_arith);
}

/// The clipped magnitude in the integer GELU.
pub open spec fn igelu_clipped(q: int, qb: int) -> int {
    let q_abs = if q < 0 {
        -q
    } else {
        q
    };
    if q_abs > -qb {
        -qb
    } else {
        q_abs
    }
}

/// The polynomial in the integer GELU.
pub open spec fn igelu_poly(q: int, qb: int, qc: int) -> int {
    (igelu_clipped(q, qb) + qb) * (igelu_clipped(q, qb) + qb) + qc
}

/// The signed error-function term in the integer GELU.
pub open spec fn igelu_erf(q: int, qb: int, qc: int) -> int {
    if q < 0 {
        -igelu_poly(q, qb, qc)
    } else {
        igelu_poly(q, qb, qc)
    }
}

/// The integer GELU: `q * (erf + qc)`.
pub open spec fn igelu(q: int, qb: int, qc: int) -> int {
    q * (igelu_erf(q, qb, qc) + qc)
}

/// `v` fits in 32 signed bits.
pub open spec fn fits_i32(v: int) -> bool {
    i32::MIN <= v <= i32::MAX
}

/// Every intermediate of the integer GELU fits in 32 signed bits.
pub open spec fn igelu_fits(q: i32, qb: i32, qc: i32) -> bool {
    &&& q != i32::MIN
    &&& qb != i32::MIN
    &&& fits_i32(igelu_clipped(q as int, qb as int) + qb)
    &&& fits_i32(
        (igelu_clipped(q as int, qb as int) + qb) * (igelu_clipped(q as int, qb as int) + qb),
    )
    &&& fits_i32(igelu_poly(q as int, qb as int, qc as int))
    &&& fits_i32(igelu_erf(q as int, qb as int, qc as int))
    &&& fits_i32(igelu_erf(q as int, qb as int, qc as int) + qc)
    &&& fits_i32(igelu(q as int, qb as int, qc as int))
}

/// The power-of-two exponent in the integer exponential.
pub open spec fn iexp_z(q: int, qln2_inv: int) -> int {
    trunc_div(-q * qln2_inv, 0x10000)
}

/// The reduced argument in the integer exponential.
pub open spec fn iexp_qp(q: int, qln2: int, qln2_inv: int) -> int {
    q + iexp_z(q, qln2_inv) * qln2
}

/// The polynomial in the integer exponential.
pub open spec fn iexp_poly(q: int, qb: int, qc: int, qln2: int, qln2_inv: int) -> int {
    (iexp_qp(q, qln2, qln2_inv) + qb) * (iexp_qp(q, qln2, qln2_inv) + qb) + qc
}

/// Every intermediate of the integer exponential fits in 32 signed bits
/// and the final shift is below 32.
pub open spec fn iexp_fits(q: i32, qb: i32, qc: i32, qln2: i32, qln2_inv: i32) -> bool {
    let z = iexp_z(q as int, qln2_inv as int);
    let qp = iexp_qp(q as int, qln2 as int, qln2_inv as int);
    &&& q != i32::MIN
    &&& fits_i32(-(q as int) * qln2_inv)
    &&& fits_i32(z * qln2)
    &&& fits_i32(qp)
    &&& fits_i32(qp + qb)
    &&& fits_i32((qp + qb) * (qp + qb))
    &&& fits_i32(iexp_poly(q as int, qb as int, qc as int, qln2 as int, qln2_inv as int))
    &&& 0 <= z < 32
}

/// The integer exponential: the polynomial shifted right by the exponent.
pub open spec fn iexp(q: i32, qb: i32, qc: i32, qln2: i32, qln2_inv: i32) -> int {
    iexp_poly(q as int, qb as int, qc as int, qln2 as int, qln2_inv as int) / pow2(
        iexp_z(q as int, qln2_inv as int) as nat,
    ) as int
}

/// The step that keeps a statistic accumulating: the finishing steps become
/// the accumulating ones.
pub open spec fn non_terminating(cmd: NormCmd) -> NormCmd {
    match cmd {
        NormCmd::MEAN => NormCmd::SUM,
        NormCmd::INV_STDDEV => NormCmd::VARIANCE,
        NormCmd::INV_SUM_EXP => NormCmd::SUM_EXP,
        _ => cmd,
    }
}

impl Gemmini {
    /// `x` shifted right by `shift` with rounding half to even, or left by
    /// `-shift` for a negative one (see `rounded_shift`).
    pub fn rounding_right_shift(x: i32, shift: i32) -> (r: i32)
        requires
            -32 < shift < 32,
        ensures
            r == rounded_shift(x, shift),
    {
        if shift > 0 {
            let s = shift as u32;
            let (q, rem) = floor_div_pow2(x, s);
            let p = pow2_u64(s);
            let round_up = 2 * rem > p || (2 * rem == p && q % 2 != 0);
            if round_up {
                (q + 1) as i32
            } else {
                q as i32
            }
        } else if shift < 0 {
            let n = (-shift) as u32;
            let p = pow2_u64(n);
            assert(-0x4000_0000_0000_0000 <= x as int * p as int <= 0x4000_0000_0000_0000)
                by (nonlinear_arith)
                requires
                    1 <= p <= 0x8000_0000,
                    -0x8000_0000 <= x < 0x8000_0000,
            ;
            let prod: i64 = (x as i64) * (p as i64);
            prod as i32
        } else {
            x
        }
    }

    /// The accumulator value `value` shifted (see `rounding_right_shift`)
    /// and saturated to a byte.
    pub fn sys_shift(value: i32, shift: i32) -> (r: i8)
        requires
            -32 < shift < 32,
        ensures
            r == saturate_i8(rounded_shift(value, shift)),
    {
        let shifted = Gemmini::rounding_right_shift(value, shift);
        if shifted < -128 {
            -128
        } else if shifted > 127 {
            127
        } else {
            shifted as i8
        }
    }

    /// `value` after the activation `act`.
    pub fn apply_activation(value: i8, act: Activation) -> (r: i8)
        ensures
            r == activated(value, act),
    {
        match act {
            Activation::RELU => {
                if value > 0 {
                    value
                } else {
                    0
                }
            },
            _ => value,
        }
    }

    /// The integer GELU of `q` with the coefficients `qb` and `qc`.
    pub fn apply_igelu(q: i32, qb: i32, qc: i32) -> (r: i32)
        requires
            igelu_fits(q, qb, qc),
        ensures
            r == igelu(q as int, qb as int, qc as int),
    {
        let q_sign: i32 = if q < 0 {
            -1
        } else {
            1
        };
        let q_abs: i32 = if q < 0 {
            -q
        } else {
            q
        };
        let q_clipped: i32 = if q_abs > -qb {
            -qb
        } else {
            q_abs
        };
        let t: i32 = q_clipped + qb;
        let q_poly: i32 = t * t + qc;
        let q_erf: i32 = q_sign * q_poly;
        q * (q_erf + qc)
    }

    /// The integer exponential of `q` (see `iexp`).
    pub fn apply_iexp(q: i32, qb: i32, qc: i32, qln2: i32, qln2_inv: i32) -> (r: i32)
        requires
            iexp_fits(q, qb, qc, qln2, qln2_inv),
        ensures
            r == iexp(q, qb, qc, qln2, qln2_inv),
    {
        let z: i32 = (-q * qln2_inv) / 0x10000;
        let qp: i32 = q + z * qln2;
        let t: i32 = qp + qb;
        let q_exp: i32 = t * t + qc;
        let (shifted, _) = floor_div_pow2(q_exp, z as u32);
        shifted as i32
    }

    /// The step that keeps a statistic accumulating (see `non_terminating`).
    pub fn non_terminating_norm_cmd(cmd: NormCmd) -> (r: NormCmd)
        ensures
            r == non_terminating(cmd),
    {
        match cmd {
            NormCmd::RESET => NormCmd::RESET,
            NormCmd::MEAN => NormCmd::SUM,
            NormCmd::INV_STDDEV => NormCmd::VARIANCE,
            NormCmd::INV_SUM_EXP => NormCmd::SUM_EXP,
            _ => cmd,
        }
    }
}


/// Whether `v` fits in 32 signed bits.
fn fits_exec(v: i128) -> (r: bool)
    ensures
        r == fits_i32(v as int),
{
    -0x8000_0000 <= v && v <= 0x7FFF_FFFF
}

impl Gemmini {
    /// Whether every intermediate of the integer GELU fits (see
    /// `igelu_fits`).
    pub fn igelu_in_range(q: i32, qb: i32, qc: i32) -> (ok: bool)
        ensures
            ok == igelu_fits(q, qb, qc),
    {
        if q == i32::MIN || qb == i32::MIN {
            return false;
        }
        let q_abs: i128 = if q < 0 {
            -(q as i128)
        } else {
            q as i128
        };
        let clipped: i128 = if q_abs > -(qb as i128) {
            -(qb as i128)
        } else {
            q_abs
        };
        let t: i128 = clipped + qb as i128;
        if !fits_exec(t) {
            return false;
        }
        assert(t * t <= 0x4000_0000_0000_0000) by (nonlinear_arith)
            requires
                -0x8000_0000 <= t <= 0x7FFF_FFFF,
        ;
        assert(t * t >= 0) by (nonlinear_arith);
        let sq: i128 = t * t;
        if !fits_exec(sq) {
            return false;
        }
        let poly: i128 = sq + qc as i128;
        if !fits_exec(poly) {
            return false;
        }
        let erf: i128 = if q < 0 {
            -poly
        } else {
            poly
        };
        if !fits_exec(erf) || !fits_exec(erf + qc as i128) {
            return false;
        }
        let inner: i128 = erf + qc as i128;
        assert(-0x4000_0000_0000_0000 <= (q as i128) * inner <= 0x4000_0000_0000_0000) by (nonlinear_arith)
            requires
                -0x8000_0000 <= q <= 0x7FFF_FFFF,
                -0x8000_0000 <= inner <= 0x7FFF_FFFF,
        ;
        fits_exec((q as i128) * inner)
    }

    /// Whether every intermediate of the integer exponential fits and its
    /// shift is below 32 (see `iexp_fits`).
    pub fn iexp_in_range(q: i32, qb: i32, qc: i32, qln2: i32, qln2_inv: i32) -> (ok: bool)
        ensures
            ok == iexp_fits(q, qb, qc, qln2, qln2_inv),
    {
        if q == i32::MIN {
            return false;
        }
        let nq: i128 = -(q as i128);
        assert(-0x4000_0000_0000_0000 <= nq * (qln2_inv as i128) <= 0x4000_0000_0000_0000) by (nonlinear_arith)
            requires
                -0x7FFF_FFFF <= nq <= 0x8000_0000,
                -0x8000_0000 <= qln2_inv <= 0x7FFF_FFFF,
        ;
        let prod: i128 = nq * (qln2_inv as i128);
        if !fits_exec(prod) {
            return false;
        }
        let p32 = prod as i32;
        let z: i32 = p32 / 0x10000;
        assert(z == trunc_div(prod as int, 0x10000));
        assert(-0x8000 <= z <= 0x8000);
        assert(-0x4000_0000_0000 <= (z as int) * (qln2 as int) <= 0x4000_0000_0000) by (nonlinear_arith)
            requires
                -0x8000 <= z <= 0x8000,
                -0x8000_0000 <= qln2 <= 0x7FFF_FFFF,
        ;
        let zq: i128 = (z as i128) * (qln2 as i128);
        if !fits_exec(zq) {
            return false;
        }
        let qp: i128 = q as i128 + zq;
        if !fits_exec(qp) || !fits_exec(qp + qb as i128) {
            return false;
        }
        let t: i128 = qp + qb as i128;
        assert(0 <= t * t <= 0x4000_0000_0000_0000) by (nonlinear_arith)
            requires
                -0x8000_0000 <= t <= 0x7FFF_FFFF,
        ;
        let sq: i128 = t * t;
        if !fits_exec(sq) || !fits_exec(sq + qc as i128) {
            return false;
        }
        0 <= z && z < 32
    }
}

} // verus!
