use neural_network::fx::{Fx, FX_SCALE};
use neural_network::linear_algebra::Powerable;
use neural_network::scalar::Scalar;

fn fx_int(n: i64) -> Fx {
    Fx::from_raw(n * FX_SCALE)
}

fn to_f64(x: Fx) -> f64 {
    (x.raw() as f64) / (FX_SCALE as f64)
}

#[test]
fn add_and_sub_are_exact() {
    assert_eq!(fx_int(3).add(fx_int(4)).raw(), 7 * FX_SCALE);
    assert_eq!(fx_int(3).sub(fx_int(4)).raw(), -FX_SCALE);
    assert_eq!(fx_int(-5).neg().raw(), 5 * FX_SCALE);
}

#[test]
fn add_saturates_at_the_i64_range() {
    let top = Fx::from_raw(i64::MAX);
    assert_eq!(top.add(fx_int(1)).raw(), i64::MAX);
    let bottom = Fx::from_raw(i64::MIN);
    assert_eq!(bottom.sub(fx_int(1)).raw(), i64::MIN);
}

#[test]
fn mul_matches_fixed_point_arithmetic() {
    assert_eq!(fx_int(6).mul(fx_int(7)).raw(), 42 * FX_SCALE);
    // one half times one half is one quarter
    let half = Fx::from_raw(FX_SCALE / 2);
    assert_eq!(half.mul(half).raw(), FX_SCALE / 4);
    // products truncate toward zero
    let tiny = Fx::from_raw(1);
    assert_eq!(tiny.mul(tiny).raw(), 0);
}

#[test]
fn div_truncates_toward_zero_and_is_total() {
    assert_eq!(fx_int(7).div(fx_int(2)).raw(), 7 * FX_SCALE / 2);
    assert_eq!(fx_int(-3).div(fx_int(2)).raw(), -3 * FX_SCALE / 2);
    // division by zero yields zero rather than failing
    assert_eq!(fx_int(5).div(fx_int(0)).raw(), 0);
}

#[test]
fn from_usize_scales_and_saturates() {
    assert_eq!(Fx::from_usize(9).raw(), 9 * FX_SCALE);
    assert_eq!(Fx::from_usize(usize::MAX).raw(), i64::MAX);
}

#[test]
fn abs_negates_only_nonpositive_values() {
    assert_eq!(fx_int(-4).abs().raw(), 4 * FX_SCALE);
    assert_eq!(fx_int(4).abs().raw(), 4 * FX_SCALE);
    assert_eq!(fx_int(0).abs().raw(), 0);
}

#[test]
fn sqrt_approximates_the_square_root() {
    assert!((to_f64(fx_int(4).sqrt()) - 2.0).abs() < 0.001);
    assert!((to_f64(fx_int(2).sqrt()) - 1.41421).abs() < 0.001);
    assert!((to_f64(fx_int(9).sqrt()) - 3.0).abs() < 0.001);
    // nonpositive inputs map to zero
    assert_eq!(fx_int(-1).sqrt().raw(), 0);
    assert_eq!(fx_int(0).sqrt().raw(), 0);
}

#[test]
fn exp_approximates_the_exponential() {
    assert_eq!(to_f64(fx_int(0).exp()), 1.0);
    assert!((to_f64(fx_int(1).exp()) - 2.71828).abs() < 0.01);
    assert!((to_f64(fx_int(-1).exp()) - 0.36788).abs() < 0.01);
    assert!((to_f64(fx_int(2).exp()) - 7.38906).abs() < 0.05);
}

#[test]
fn powi_multiplies_up_and_inverts_negative_powers() {
    assert_eq!(fx_int(2).powi(3).raw(), 8 * FX_SCALE);
    assert_eq!(fx_int(5).powi(0).raw(), FX_SCALE);
    assert_eq!(fx_int(2).powi(-1).raw(), FX_SCALE / 2);
}

#[test]
fn zero_and_one_are_the_identities() {
    let x = fx_int(37);
    assert_eq!(x.add(Fx::zero()).raw(), x.raw());
    assert_eq!(x.mul(Fx::one()).raw(), x.raw());
}

#[test]
fn uniform_symmetric_stays_inside_the_bound() {
    let limit = fx_int(2);
    for _ in 0..100 {
        let draw = Fx::uniform_symmetric(limit);
        assert!(-2 * FX_SCALE <= draw.raw() && draw.raw() <= 2 * FX_SCALE);
    }
    // a nonpositive bound leaves no room
    assert_eq!(Fx::uniform_symmetric(fx_int(0)).raw(), 0);
    assert_eq!(Fx::uniform_symmetric(fx_int(-1)).raw(), 0);
}
