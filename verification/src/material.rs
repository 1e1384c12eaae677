//! Exact numeric facts of the scattering model.
//!
//! The dielectric material chooses between reflection and refraction by
//! Schlick's approximation of the Fresnel reflectance,
//! `r0 + (1 - r0) * (1 - cos)^5` with `r0 = ((1 - n) / (1 + n))^2`.
//! The material evaluates it in floating point in the surrounding
//! application; this module states and proves what holds of the formula in
//! exact arithmetic, over fractions of integers: for any cosine in `[0, 1]`
//! and any positive refractive-index ratio the reflectance is a probability,
//! so comparing it against a uniform random draw is meaningful.

use vstd::prelude::*;

verus! {

/// `x` to the fifth power, the exponent of Schlick's approximation.
pub open spec fn pow5(x: int) -> int {
    x * x * x * x * x
}

/// Numerator of `r0 = ((1 - n) / (1 + n))^2` for the ratio `n = nn / nd`.
pub open spec fn r0_num(nn: int, nd: int) -> int {
    (nd - nn) * (nd - nn)
}

/// Denominator of `r0` for the ratio `n = nn / nd`.
pub open spec fn r0_den(nn: int, nd: int) -> int {
    (nd + nn) * (nd + nn)
}

/// Numerator of the reflectance `r0 + (1 - r0) * (1 - cos)^5` for the cosine
/// `cn / cd` and the ratio `nn / nd`, over the denominator
/// [`schlick_den`](schlick_den).
pub open spec fn schlick_num(cn: int, cd: int, nn: int, nd: int) -> int {
    r0_num(nn, nd) * pow5(cd) + (r0_den(nn, nd) - r0_num(nn, nd)) * pow5(cd - cn)
}

/// Denominator of the reflectance for the cosine `cn / cd` and the ratio
/// `nn / nd`.
pub open spec fn schlick_den(cd: int, nn: int, nd: int) -> int {
    r0_den(nn, nd) * pow5(cd)
}

/// Raising both sides of `0 <= x <= y` to the fifth power keeps the order.
proof fn lemma_pow5_monotone(x: int, y: int)
    requires
        0 <= x <= y,
    ensures
        0 <= pow5(x) <= pow5(y),
{
    assert(0 <= x * x * x * x * x <= y * y * y * y * y) by (nonlinear_arith)
        requires
            0 <= x <= y,
    ;
}

/// Schlick reflectance bounds: for any cosine in `[0, 1]` and any positive
/// refractive-index ratio, the reflectance `r0 + (1 - r0) * (1 - cos)^5`
/// lies in `[0, 1]`. The cosine is the fraction `cn / cd` and the ratio the
/// fraction `nn / nd`; the reflectance is `schlick_num / schlick_den`, and
/// the bounds say `0 <= schlick_num <= schlick_den` with `schlick_den > 0`.
pub proof fn lemma_schlick_reflectance_bounds(cn: int, cd: int, nn: int, nd: int)
    requires
        0 <= cn <= cd,
        1 <= cd,
        1 <= nn,
        1 <= nd,
    ensures
        schlick_den(cd, nn, nd) > 0,
        0 <= schlick_num(cn, cd, nn, nd) <= schlick_den(cd, nn, nd),
{
    let a = r0_num(nn, nd);
    let b = r0_den(nn, nd);
    let p = pow5(cd);
    let e = pow5(cd - cn);

    assert(0 <= (nd - nn) * (nd - nn) <= (nd + nn) * (nd + nn) && 0 < (nd + nn) * (nd + nn))
        by (nonlinear_arith)
        requires
            1 <= nn,
            1 <= nd,
    ;
    lemma_pow5_monotone(cd - cn, cd);
    assert(1 <= cd * cd * cd * cd * cd) by (nonlinear_arith)
        requires
            1 <= cd,
    ;
    assert(b * p > 0) by (nonlinear_arith)
        requires
            0 < b,
            0 < p,
    ;
    assert(0 <= a * p + (b - a) * e) by (nonlinear_arith)
        requires
            0 <= a,
            a <= b,
            0 <= e,
            0 <= p,
    ;
    assert(a * p + (b - a) * e <= b * p) by (nonlinear_arith)
        requires
            0 <= a,
            a <= b,
            0 <= e,
            e <= p,
    ;
}

/// At normal incidence the fifth-power term vanishes: the reflectance is
/// exactly `r0`. With the ratio `2 / 3` of a ray entering a dielectric of
/// index `1.5` from outside, `r0` is `1 / 25`, well below one, so such a ray
/// is not forced to reflect.
pub proof fn lemma_schlick_normal_incidence(cn: int, cd: int, nn: int, nd: int)
    requires
        cn == cd,
        1 <= cd,
        1 <= nn,
        1 <= nd,
    ensures
        schlick_num(cn, cd, nn, nd) == r0_num(nn, nd) * pow5(cd),
        schlick_den(cd, nn, nd) == r0_den(nn, nd) * pow5(cd),
        25 * schlick_num(cn, cd, 2, 3) == schlick_den(cd, 2, 3),
{
    assert(cd - cn == 0);
    assert(pow5(cd - cn) == pow5(0));
    assert(pow5(0) == 0);
    assert(r0_num(2, 3) == 1);
    assert(r0_den(2, 3) == 25);
}

} // verus!
