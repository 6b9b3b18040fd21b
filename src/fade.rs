//! The quintic smoothstep used to weight lattice corners.
use vstd::prelude::*;

verus! {

/// Fixed-point unit: a fraction `t` of a lattice cell is held as `t * ONE`.
pub const ONE: i128 = 65536;

/// `t^3 (6 t^2 - 15 t s + 10 s^2)`: the smoothstep scaled by `s^5` for `t` in units of `1/s`.
pub open spec fn fade_poly(t: int, s: int) -> int {
    t * t * t * (6 * t * t - 15 * t * s + 10 * s * s)
}

/// The smoothstep of a fixed-point fraction `t`, itself in fixed point (rounded down);
/// the divisor is `ONE^4`.
pub open spec fn fade_spec(t: int) -> int {
    fade_poly(t, ONE as int) / 18446744073709551616
}

/// The inner quadratic of the smoothstep is positive: `24 q = (12 t - 15 s)^2 + 15 s^2`.
proof fn lemma_fade_inner_positive(t: int, s: int)
    requires
        s > 0,
    ensures
        6 * t * t - 15 * t * s + 10 * s * s > 0,
{
    let inner = 6 * t * t - 15 * t * s + 10 * s * s;
    assert(24 * inner == (12 * t - 15 * s) * (12 * t - 15 * s) + 15 * s * s) by (nonlinear_arith)
        requires
            inner == 6 * t * t - 15 * t * s + 10 * s * s,
    ;
    assert((12 * t - 15 * s) * (12 * t - 15 * s) >= 0) by (nonlinear_arith);
    assert(inner > 0) by (nonlinear_arith)
        requires
            24 * inner == (12 * t - 15 * s) * (12 * t - 15 * s) + 15 * s * s,
            (12 * t - 15 * s) * (12 * t - 15 * s) >= 0,
            s > 0,
    ;
}

/// The smoothstep fixes both ends of the cell and its midpoint.
pub proof fn lemma_fade_fixed_points()
    ensures
        fade_spec(0) == 0,
        fade_spec(ONE as int) == ONE,
        fade_spec(32768) == 32768,
{
    assert(fade_poly(0, ONE as int) == 0) by (nonlinear_arith);
    assert(fade_poly(ONE as int, ONE as int) == ONE * 18446744073709551616) by (nonlinear_arith);
    assert(fade_poly(32768, ONE as int) == 32768 * 18446744073709551616) by (nonlinear_arith);
    vstd::arithmetic::div_mod::lemma_div_multiples_vanish(ONE as int, 18446744073709551616);
    vstd::arithmetic::div_mod::lemma_div_multiples_vanish(32768, 18446744073709551616);
}

/// Fixed-point smoothstep of a fraction `t` of a cell.
pub fn fade(t: i128) -> (r: i128)
    requires
        0 <= t <= ONE,
    ensures
        r == fade_spec(t as int),
        0 <= r <= 16 * ONE,
{
    proof {
        assert(0 <= t * t <= ONE * ONE) by (nonlinear_arith)
            requires
                0 <= t <= ONE,
        ;
        assert(0 <= t * t * t <= ONE * ONE * ONE) by (nonlinear_arith)
            requires
                0 <= t <= ONE,
        ;
        assert(0 <= 6 * t * t <= 6 * ONE * ONE) by (nonlinear_arith)
            requires
                0 <= t <= ONE,
        ;
        assert(0 <= 15 * t * ONE <= 15 * ONE * ONE) by (nonlinear_arith)
            requires
                0 <= t <= ONE,
        ;
    }
    let t3 = t * t * t;
    let inner = 6 * t * t - 15 * t * ONE + 10 * ONE * ONE;
    proof {
        lemma_fade_inner_positive(t as int, ONE as int);
        assert(0 <= 6 * t * t <= 6 * ONE * ONE) by (nonlinear_arith)
            requires
                0 <= t <= ONE,
        ;
        assert(0 <= t * ONE <= ONE * ONE) by (nonlinear_arith)
            requires
                0 <= t <= ONE,
        ;
        assert(0 <= t * t * t <= ONE * ONE * ONE) by (nonlinear_arith)
            requires
                0 <= t <= ONE,
        ;
        assert(0 <= t3 * inner <= 19342813113834066795298816) by (nonlinear_arith)
            requires
                0 <= t3 <= 281474976710656,
                0 <= inner <= 68719476736,
        ;
        assert(t3 * inner == fade_poly(t as int, ONE as int));
        vstd::arithmetic::div_mod::lemma_div_is_ordered(
            fade_poly(t as int, ONE as int),
            19342813113834066795298816,
            18446744073709551616,
        );
        vstd::arithmetic::div_mod::lemma_div_multiples_vanish(16 * ONE, 18446744073709551616);
        vstd::arithmetic::div_mod::lemma_div_pos_is_pos(
            fade_poly(t as int, ONE as int),
            18446744073709551616,
        );
    }
    t3 * inner / 18446744073709551616
}

} // verus!
