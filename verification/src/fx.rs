//! A saturating fixed-point scalar with 16 fractional bits, backed by `i64`.
//!
//! `Fx` is the crate's verified arithmetic: a raw value `r` stands for the
//! number `r / 65536`.  Sums, products and quotients that leave the `i64`
//! range saturate; quotients truncate toward zero; division by zero yields
//! zero, so every operation is total.  The square root is computed by a
//! fixed number of Heron iterations, the exponential by a range-reduced
//! Taylor polynomial; both are exact against their spec-level definitions.

use rand::Rng;
use vstd::arithmetic::div_mod::{
    lemma_basic_div, lemma_div_nonincreasing, lemma_div_pos_is_pos, lemma_fundamental_div_mod,
    lemma_mod_bound,
};
use vstd::prelude::*;

use crate::cost_functions::{sp_cost, sp_sq_diff_prefix, CostFunction};
use crate::linear_algebra::Powerable;
use crate::neural_network::{sp_scale_one, sp_unscale_one};
use crate::scalar::Scalar;

verus! {

/// Raw units per unit value: `Fx { raw: FX_SCALE }` stands for one.
pub const FX_SCALE: i64 = 65536;

/// The magnitude of an integer.
pub open spec fn abs_int(x: int) -> int {
    if x < 0 {
        -x
    } else {
        x
    }
}

/// Saturation to the `i64` range.
pub open spec fn clamp_raw(x: int) -> int {
    if x > i64::MAX as int {
        i64::MAX as int
    } else if x < i64::MIN as int {
        i64::MIN as int
    } else {
        x
    }
}

/// Division truncated toward zero, total in the divisor.
pub open spec fn tdiv(a: int, b: int) -> int {
    if b == 0 {
        0
    } else {
        let q = abs_int(a) / abs_int(b);
        if (0 <= a) == (0 <= b) {
            q
        } else {
            -q
        }
    }
}

#[derive(Clone, Copy, Debug, PartialEq, Eq, Structural)]
pub struct Fx {
    pub raw: i64,
}

pub open spec fn fx_zero() -> Fx {
    Fx { raw: 0 }
}

pub open spec fn fx_one() -> Fx {
    Fx { raw: FX_SCALE }
}

pub open spec fn fx_add(a: Fx, b: Fx) -> Fx {
    Fx { raw: clamp_raw(a.raw + b.raw) as i64 }
}

pub open spec fn fx_neg(a: Fx) -> Fx {
    Fx { raw: clamp_raw(-(a.raw as int)) as i64 }
}

pub open spec fn fx_mul(a: Fx, b: Fx) -> Fx {
    Fx { raw: clamp_raw(tdiv(a.raw as int * b.raw as int, FX_SCALE as int)) as i64 }
}

pub open spec fn fx_div(a: Fx, b: Fx) -> Fx {
    if b.raw == 0 {
        Fx { raw: 0 }
    } else {
        Fx { raw: clamp_raw(tdiv(a.raw as int * FX_SCALE as int, b.raw as int)) as i64 }
    }
}

pub open spec fn fx_from_usize(n: usize) -> Fx {
    Fx { raw: clamp_raw(n as int * FX_SCALE as int) as i64 }
}

pub open spec fn fx_le(a: Fx, b: Fx) -> bool {
    a.raw <= b.raw
}

/// One Heron (Babylonian) refinement of a square-root estimate `x` for `a`.
pub open spec fn fx_heron_step(a: Fx, x: Fx) -> Fx {
    fx_div(fx_add(x, fx_div(a, x)), fx_from_usize(2))
}

/// `k` Heron refinements of the estimate `x0`.
pub open spec fn fx_heron(a: Fx, x0: Fx, k: nat) -> Fx
    decreases k,
{
    if k == 0 {
        x0
    } else {
        fx_heron_step(a, fx_heron(a, x0, (k - 1) as nat))
    }
}

/// How many Heron refinements the square root performs.
pub const FX_SQRT_STEPS: usize = 8;

pub open spec fn fx_sqrt(a: Fx) -> Fx {
    if a.raw <= 0 {
        Fx { raw: 0 }
    } else {
        fx_heron(a, fx_div(fx_add(a, fx_one()), fx_from_usize(2)), FX_SQRT_STEPS as nat)
    }
}

/// `a` to the natural power `n`, multiplied up from one.
pub open spec fn fx_pow_nat(a: Fx, n: nat) -> Fx
    decreases n,
{
    if n == 0 {
        fx_one()
    } else {
        fx_mul(fx_pow_nat(a, (n - 1) as nat), a)
    }
}

/// `a` to a signed power: the reciprocal of the positive power when the
/// exponent is negative.
pub open spec fn fx_powi(a: Fx, power: i32) -> Fx {
    if power >= 0 {
        fx_pow_nat(a, power as nat)
    } else {
        fx_div(fx_one(), fx_pow_nat(a, abs_int(power as int) as nat))
    }
}

/// Degree-four Taylor polynomial of the exponential at zero.
pub open spec fn fx_exp_taylor(t: Fx) -> Fx {
    let t2 = fx_mul(t, t);
    let t3 = fx_mul(t2, t);
    let t4 = fx_mul(t3, t);
    fx_add(
        fx_add(fx_one(), t),
        fx_add(
            fx_div(t2, fx_from_usize(2)),
            fx_add(fx_div(t3, fx_from_usize(6)), fx_div(t4, fx_from_usize(24))),
        ),
    )
}

/// Range reduction: `exp(a) == exp(a / 16) ^ 16`, the power taken by
/// four squarings.
pub open spec fn fx_exp(a: Fx) -> Fx {
    let s = fx_exp_taylor(fx_div(a, fx_from_usize(16)));
    let s2 = fx_mul(s, s);
    let s4 = fx_mul(s2, s2);
    let s8 = fx_mul(s4, s4);
    fx_mul(s8, s8)
}

proof fn lemma_tdiv_nonneg(a: int, b: int)
    requires
        0 <= a,
        0 < b,
    ensures
        0 <= tdiv(a, b),
{
    lemma_div_pos_is_pos(a, b);
}

proof fn lemma_fx_div_nonneg(a: Fx, b: Fx)
    requires
        0 <= a.raw,
        0 <= b.raw,
    ensures
        0 <= fx_div(a, b).raw,
{
    if b.raw != 0 {
        lemma_tdiv_nonneg(a.raw as int * FX_SCALE as int, b.raw as int);
    }
}

proof fn lemma_fx_heron_step_nonneg(a: Fx, x: Fx)
    requires
        0 <= a.raw,
        0 <= x.raw,
    ensures
        0 <= fx_heron_step(a, x).raw,
{
    lemma_fx_div_nonneg(a, x);
    lemma_fx_div_nonneg(fx_add(x, fx_div(a, x)), fx_from_usize(2));
}

proof fn lemma_fx_heron_nonneg(a: Fx, x0: Fx, k: nat)
    requires
        0 <= a.raw,
        0 <= x0.raw,
    ensures
        0 <= fx_heron(a, x0, k).raw,
    decreases k,
{
    if k > 0 {
        lemma_fx_heron_nonneg(a, x0, (k - 1) as nat);
        lemma_fx_heron_step_nonneg(a, fx_heron(a, x0, (k - 1) as nat));
    }
}

/// The square root never comes out negative.
pub proof fn lemma_fx_sqrt_nonneg(a: Fx)
    ensures
        0 <= fx_sqrt(a).raw,
{
    if a.raw > 0 {
        lemma_fx_div_nonneg(fx_add(a, fx_one()), fx_from_usize(2));
        lemma_fx_heron_nonneg(a, fx_div(fx_add(a, fx_one()), fx_from_usize(2)), FX_SQRT_STEPS as nat);
    }
}

proof fn lemma_sq_diff_prefix_nonneg(actual: Seq<Fx>, predicted: Seq<Fx>, n: int)
    ensures
        0 <= sp_sq_diff_prefix::<Fx>(actual, predicted, n).raw,
        (forall|i: int| 0 <= i < n ==> actual[i] == predicted[i])
            ==> sp_sq_diff_prefix::<Fx>(actual, predicted, n) == fx_zero(),
    decreases n,
{
    if n > 0 {
        lemma_sq_diff_prefix_nonneg(actual, predicted, n - 1);
        let d = fx_add(actual[n - 1], fx_neg(predicted[n - 1]));
        assert(0 <= d.raw as int * d.raw as int) by (nonlinear_arith);
        lemma_tdiv_nonneg(d.raw as int * d.raw as int, FX_SCALE as int);
        if actual[n - 1] == predicted[n - 1] {
            if actual[n - 1].raw == i64::MIN {
                assert(d.raw == -1);
                assert(d.raw as int * d.raw as int == 1) by (nonlinear_arith)
                    requires
                        d.raw as int == -1,
                ;
                lemma_basic_div(1, FX_SCALE as int);
                assert(tdiv(1, FX_SCALE as int) == 0);
                assert(fx_mul(d, d) == fx_zero());
            } else {
                assert(d.raw == 0);
                assert(d.raw as int * d.raw as int == 0) by (nonlinear_arith)
                    requires
                        d.raw as int == 0,
                ;
                assert(tdiv(0, FX_SCALE as int) == 0);
                assert(fx_mul(d, d) == fx_zero());
            }
        }
    }
}

/// Mean squared error is never negative, and a prediction that matches
/// the target entry for entry costs exactly zero.  (The converse fails:
/// squaring truncates, so a difference below the fixed-point resolution
/// also squares to zero.)
pub proof fn lemma_mse_cost_nonneg(actual: Seq<Fx>, predicted: Seq<Fx>)
    requires
        actual.len() == predicted.len(),
    ensures
        fx_le(fx_zero(), sp_cost(CostFunction::MeanSquaredError, actual, predicted)),
        actual == predicted ==> sp_cost(CostFunction::MeanSquaredError, actual, predicted)
            == fx_zero(),
{
    let n = actual.len() as int;
    lemma_sq_diff_prefix_nonneg(actual, predicted, n);
    let total = sp_sq_diff_prefix::<Fx>(actual, predicted, n);
    let count = fx_from_usize(actual.len() as usize);
    if count.raw != 0 {
        lemma_tdiv_nonneg(total.raw as int * FX_SCALE as int, count.raw as int);
    }
}

/// Truncated division leaves a remainder smaller than the divisor, on
/// whichever side of zero the dividend lies.
proof fn lemma_tdiv_fundamental(a: int, b: int)
    requires
        0 < b,
    ensures
        a >= 0 ==> 0 <= a - tdiv(a, b) * b < b,
        a < 0 ==> -b < a - tdiv(a, b) * b <= 0,
{
    if a >= 0 {
        lemma_fundamental_div_mod(a, b);
        lemma_mod_bound(a, b);
        assert(tdiv(a, b) == a / b);
    } else {
        lemma_fundamental_div_mod(-a, b);
        lemma_mod_bound(-a, b);
        let q0 = (-a) / b;
        assert(tdiv(a, b) == -q0);
        assert(-a == b * q0 + ((-a) % b));
        assert(a - (-q0) * b == -((-a) % b)) by (nonlinear_arith)
            requires
                -a == b * q0 + ((-a) % b),
        ;
    }
}

/// Standardizing a value and returning it to original units errs by at
/// most one part in `FX_SCALE` of the standard deviation, plus one raw
/// unit: the only losses are the two truncated divisions.  (The exact
/// identity of real arithmetic fails here: dividing by `sd` and
/// multiplying by `sd` again each truncate.)  The bounds keep every
/// intermediate value far from saturation.
pub proof fn lemma_standardize_round_trip(v: Fx, m: Fx, sd: Fx)
    requires
        0 < sd.raw <= 0x100_0000_0000,
        -0x100_0000_0000 <= v.raw <= 0x100_0000_0000,
        -0x100_0000_0000 <= m.raw <= 0x100_0000_0000,
    ensures
        ({
            let result = sp_unscale_one::<Fx>(sp_scale_one::<Fx>(v, m, sd), m, sd);
            -(sd.raw + 0xffff) <= (result.raw - v.raw) * 65536 <= sd.raw + 0xffff
        }),
{
    let s = sd.raw as int;
    let diff = fx_add(v, fx_neg(m));
    let d_val = diff.raw as int;
    assert(d_val == v.raw - m.raw);
    let a = d_val * 65536;
    lemma_tdiv_fundamental(a, s);
    let q = tdiv(a, s);
    let r1 = a - q * s;
    if a >= 0 {
        lemma_div_nonincreasing(a, s);
    } else {
        lemma_div_nonincreasing(-a, s);
    }
    let scaled = fx_div(diff, sd);
    assert(scaled.raw as int == q);
    assert(sp_scale_one::<Fx>(v, m, sd) == scaled);
    let p = q * s;
    assert(p == a - r1);
    lemma_tdiv_fundamental(p, 65536);
    let u = tdiv(p, 65536);
    let r2 = p - u * 65536;
    if p >= 0 {
        lemma_div_nonincreasing(p, 65536);
    } else {
        lemma_div_nonincreasing(-p, 65536);
    }
    let unscaled = fx_mul(scaled, sd);
    assert(unscaled.raw as int == u);
    let result = fx_add(unscaled, m);
    assert(result.raw as int == u + m.raw);
    assert(sp_unscale_one::<Fx>(scaled, m, sd) == result);
    assert((result.raw - v.raw) * 65536 == (u - d_val) * 65536);
    assert(u * 65536 == a - r1 - r2);
    assert((u - d_val) * 65536 == u * 65536 - a) by (nonlinear_arith)
        requires
            a == d_val * 65536,
    ;
}

proof fn lemma_product_in_i128(a: int, b: int)
    requires
        -0x8000_0000_0000_0000 <= a <= 0x7fff_ffff_ffff_ffff,
        -0x8000_0000_0000_0000 <= b <= 0x7fff_ffff_ffff_ffff,
    ensures
        i128::MIN < a * b < i128::MAX,
{
    assert(-0x4000_0000_0000_0000_0000_0000_0000_0000 <= a * b
        <= 0x4000_0000_0000_0000_0000_0000_0000_0000) by (nonlinear_arith)
        requires
            -0x8000_0000_0000_0000 <= a <= 0x8000_0000_0000_0000,
            -0x8000_0000_0000_0000 <= b <= 0x8000_0000_0000_0000,
    ;
}

fn clamp_to_i64(x: i128) -> (r: i64)
    ensures
        r as int == clamp_raw(x as int),
{
    if x > i64::MAX as i128 {
        i64::MAX
    } else if x < i64::MIN as i128 {
        i64::MIN
    } else {
        x as i64
    }
}

fn tdiv_i128(a: i128, b: i128) -> (r: i128)
    requires
        b != 0,
        i128::MIN < a,
        i128::MIN < b,
    ensures
        r as int == tdiv(a as int, b as int),
{
    let ua: u128 = if a < 0 {
        (-a) as u128
    } else {
        a as u128
    };
    let ub: u128 = if b < 0 {
        (-b) as u128
    } else {
        b as u128
    };
    proof {
        assert(ua as int == abs_int(a as int));
        assert(ub as int == abs_int(b as int));
        lemma_div_nonincreasing(ua as int, ub as int);
        lemma_div_pos_is_pos(ua as int, ub as int);
    }
    let q = ua / ub;
    if (a < 0) != (b < 0) {
        -(q as i128)
    } else {
        q as i128
    }
}

/// Relies on `rand::Rng::gen_range`: for a nonempty inclusive range it
/// returns a value inside the range.
#[verifier::external_body]
fn gen_range_i64(lo: i64, hi: i64) -> (r: i64)
    requires
        lo <= hi,
    ensures
        lo <= r <= hi,
{
    rand::thread_rng().gen_range(lo..=hi)
}

impl Fx {
    /// The value `raw / 65536`.
    pub fn from_raw(raw: i64) -> (r: Fx)
        ensures
            r == (Fx { raw }),
    {
        Fx { raw }
    }

    pub fn raw(self) -> (r: i64)
        ensures
            r == self.raw,
    {
        self.raw
    }
}

impl Powerable<Fx> for Fx {
    open spec fn sp_powi(self, power: i32) -> Fx {
        fx_powi(self, power)
    }

    fn powi(self, power: i32) -> (r: Fx) {
        let magnitude: u64 = if power < 0 {
            (-(power as i64)) as u64
        } else {
            power as u64
        };
        let mut acc = Fx { raw: FX_SCALE };
        let mut k: u64 = 0;
        while k < magnitude
            invariant
                k <= magnitude,
                acc == fx_pow_nat(self, k as nat),
            decreases magnitude - k,
        {
            acc = acc.mul(self);
            k = k + 1;
        }
        if power < 0 {
            let one = Fx { raw: FX_SCALE };
            one.div(acc)
        } else {
            acc
        }
    }
}

impl Scalar for Fx {
    open spec fn sp_zero() -> Fx {
        fx_zero()
    }

    open spec fn sp_one() -> Fx {
        fx_one()
    }

    open spec fn sp_add(a: Fx, b: Fx) -> Fx {
        fx_add(a, b)
    }

    open spec fn sp_neg(a: Fx) -> Fx {
        fx_neg(a)
    }

    open spec fn sp_mul(a: Fx, b: Fx) -> Fx {
        fx_mul(a, b)
    }

    open spec fn sp_div(a: Fx, b: Fx) -> Fx {
        fx_div(a, b)
    }

    open spec fn sp_sqrt(a: Fx) -> Fx {
        fx_sqrt(a)
    }

    open spec fn sp_exp(a: Fx) -> Fx {
        fx_exp(a)
    }

    open spec fn sp_from_usize(n: usize) -> Fx {
        fx_from_usize(n)
    }

    open spec fn sp_le(a: Fx, b: Fx) -> bool {
        fx_le(a, b)
    }

    fn zero() -> (r: Fx) {
        Fx { raw: 0 }
    }

    fn one() -> (r: Fx) {
        Fx { raw: FX_SCALE }
    }

    fn add(self, other: Fx) -> (r: Fx) {
        let s: i128 = self.raw as i128 + other.raw as i128;
        Fx { raw: clamp_to_i64(s) }
    }

    fn sub(self, other: Fx) -> (r: Fx) {
        self.add(other.neg())
    }

    fn neg(self) -> (r: Fx) {
        let n: i128 = -(self.raw as i128);
        Fx { raw: clamp_to_i64(n) }
    }

    fn mul(self, other: Fx) -> (r: Fx) {
        proof {
            lemma_product_in_i128(self.raw as int, other.raw as int);
        }
        let p: i128 = self.raw as i128 * other.raw as i128;
        Fx { raw: clamp_to_i64(tdiv_i128(p, FX_SCALE as i128)) }
    }

    fn div(self, other: Fx) -> (r: Fx) {
        if other.raw == 0 {
            Fx { raw: 0 }
        } else {
            proof {
                lemma_product_in_i128(self.raw as int, FX_SCALE as int);
            }
            let n: i128 = self.raw as i128 * FX_SCALE as i128;
            Fx { raw: clamp_to_i64(tdiv_i128(n, other.raw as i128)) }
        }
    }

    fn sqrt(self) -> (r: Fx) {
        proof {
            lemma_fx_sqrt_nonneg(self);
        }
        if self.raw <= 0 {
            Fx { raw: 0 }
        } else {
            let two = Fx::from_usize(2);
            let seed = self.add(Fx::one()).div(two);
            let mut x = seed;
            let mut i: usize = 0;
            while i < FX_SQRT_STEPS
                invariant
                    i <= FX_SQRT_STEPS,
                    two == fx_from_usize(2),
                    x == fx_heron(self, seed, i as nat),
                decreases FX_SQRT_STEPS - i,
            {
                x = x.add(self.div(x)).div(two);
                i = i + 1;
            }
            x
        }
    }

    fn exp(self) -> (r: Fx) {
        let t = self.div(Fx::from_usize(16));
        let t2 = t.mul(t);
        let t3 = t2.mul(t);
        let t4 = t3.mul(t);
        let s = Fx::one().add(t).add(
            t2.div(Fx::from_usize(2)).add(
                t3.div(Fx::from_usize(6)).add(t4.div(Fx::from_usize(24))),
            ),
        );
        let s2 = s.mul(s);
        let s4 = s2.mul(s2);
        let s8 = s4.mul(s4);
        s8.mul(s8)
    }

    fn from_usize(n: usize) -> (r: Fx) {
        proof {
            assert(n as int * FX_SCALE as int <= u128::MAX as int && 0 <= n as int
                * FX_SCALE as int) by (nonlinear_arith)
                requires
                    0 <= n as int <= 0xffff_ffff_ffff_ffff,
            ;
        }
        let v: u128 = n as u128 * FX_SCALE as u128;
        if v > i64::MAX as u128 {
            Fx { raw: i64::MAX }
        } else {
            Fx { raw: v as i64 }
        }
    }

    fn abs(self) -> (r: Fx) {
        if self.raw <= 0 {
            self.neg()
        } else {
            self
        }
    }

    fn uniform_symmetric(limit: Fx) -> (r: Fx) {
        if limit.raw <= 0 {
            Fx { raw: 0 }
        } else {
            Fx { raw: gen_range_i64(-limit.raw, limit.raw) }
        }
    }
}

} // verus!
