//! How long the rainbow generator takes to repeat itself.

use vstd::prelude::*;
use vstd::arithmetic::div_mod::*;
use crate::color::{kth_color, phase_after};

verus! {

/// The greatest common divisor, by Euclid's algorithm.
pub open spec fn gcd(a: nat, b: nat) -> nat
    decreases b,
{
    if b == 0 {
        a
    } else {
        gcd(b, a % b)
    }
}

/// The number of colours after which a generator of stride `step` is back
/// where it started.
pub open spec fn period(step: u8) -> nat {
    256nat / gcd(step as nat, 256)
}

/// The greatest common divisor divides both of its arguments.
pub proof fn lemma_gcd_divides(a: nat, b: nat)
    requires
        a > 0 || b > 0,
    ensures
        gcd(a, b) > 0,
        a % gcd(a, b) == 0,
        b % gcd(a, b) == 0,
    decreases b,
{
    if b != 0 {
        let r = a % b;
        let g = gcd(b, r);
        lemma_gcd_divides(b, r);
        lemma_fundamental_div_mod(a as int, b as int);
        // a == b * (a / b) + r, and g divides both b and r
        let q = a / b;
        lemma_fundamental_div_mod(b as int, g as int);
        lemma_fundamental_div_mod(r as int, g as int);
        let bq = b / g;
        let rq = r / g;
        assert(a == g * (bq * q + rq)) by (nonlinear_arith)
            requires
                a == b * q + r,
                b == g * bq,
                r == g * rq,
        ;
        lemma_mod_multiples_basic((bq * q + rq) as int, g as int);
        assert(a == (bq * q + rq) * g) by (nonlinear_arith)
            requires
                a == g * (bq * q + rq),
        ;
    }
}

/// Bezout's identity: the greatest common divisor is an integer combination
/// of its arguments. The coefficients are returned.
pub proof fn lemma_gcd_combination(a: nat, b: nat) -> (c: (int, int))
    ensures
        a * c.0 + b * c.1 == gcd(a, b),
    decreases b,
{
    if b == 0 {
        (1, 0)
    } else {
        let r = a % b;
        let q = a / b;
        let (x, y) = lemma_gcd_combination(b, r);
        lemma_fundamental_div_mod(a as int, b as int);
        assert(a * y + b * (x - q * y) == b * x + r * y) by (nonlinear_arith)
            requires
                a == b * q + r,
        ;
        (y, x - q * y)
    }
}

/// The position after `k` colours is the start plus `k` strides, modulo 256.
pub proof fn lemma_phase_after_closed_form(pos: u8, step: u8, k: nat)
    ensures
        phase_after(pos, step, k) == (pos + k * step) % 256,
    decreases k,
{
    if k == 0 {
        assert(k * step == 0) by (nonlinear_arith)
            requires
                k == 0,
        ;
    } else {
        let j = (k - 1) as nat;
        lemma_phase_after_closed_form(pos, step, j);
        let x = pos + j * step;
        assert(pos + k * step == x + step) by (nonlinear_arith)
            requires
                x == pos + j * step,
                k == j + 1,
        ;
        assert(phase_after(pos, step, k) == (x % 256 + step) % 256);
        assert((x % 256 + step) % 256 == (x + step) % 256) by {
            lemma_add_mod_noop(x, step as int, 256);
        }
    }
}

/// The `k`-th colour is the wheel's colour at the start plus `k` strides,
/// modulo 256.
pub proof fn lemma_kth_color_closed_form(pos: u8, step: u8, k: nat)
    ensures
        kth_color(pos, step, k) == crate::color::wheel_color(((pos + k * step) % 256) as u8),
{
    lemma_phase_after_closed_form(pos, step, k);
}

/// A whole period of strides is a multiple of 256.
pub proof fn lemma_period_strides_vanish(step: u8)
    ensures
        period(step) >= 1,
        period(step) * gcd(step as nat, 256) == 256,
        (period(step) * step) % 256 == 0,
{
    let g = gcd(step as nat, 256);
    lemma_gcd_divides(step as nat, 256);
    lemma_fundamental_div_mod(256, g as int);
    lemma_fundamental_div_mod(step as int, g as int);
    let p = 256int / (g as int);
    let s = (step as int) / (g as int);
    assert(p == period(step));
    assert(256 == g * p);
    assert(step == g * s);
    assert(p >= 1) by (nonlinear_arith)
        requires
            256 == g * p,
            g > 0,
    ;
    assert(p * step == s * 256) by (nonlinear_arith)
        requires
            256 == g * p,
            step == g * s,
    ;
    lemma_mod_multiples_basic(s as int, 256);
    assert(p * g == 256) by (nonlinear_arith)
        requires
            256 == g * p,
    ;
}

/// The generator repeats itself after `period(step)` colours: the position,
/// and with it the colour, is the same one period later.
pub proof fn lemma_rainbow_periodic(pos: u8, step: u8, k: nat)
    ensures
        phase_after(pos, step, k + period(step)) == phase_after(pos, step, k),
        kth_color(pos, step, k + period(step)) == kth_color(pos, step, k),
{
    let p = period(step);
    lemma_phase_after_closed_form(pos, step, k);
    lemma_phase_after_closed_form(pos, step, k + p);
    lemma_period_strides_vanish(step);
    let x = pos + k * step;
    let t = (p * step) / 256;
    lemma_fundamental_div_mod(p * step, 256);
    assert(pos + (k + p) * step == 256 * t + x) by (nonlinear_arith)
        requires
            x == pos + k * step,
            p * step == 256 * t,
    ;
    lemma_mod_multiples_vanish(t, x, 256);
}

/// No shorter distance repeats: within less than one period the generator
/// never comes back to a position.
pub proof fn lemma_rainbow_period_least(pos: u8, step: u8, k: nat, d: nat)
    requires
        0 < d < period(step),
    ensures
        phase_after(pos, step, k + d) != phase_after(pos, step, k),
{
    let p = period(step);
    let g = gcd(step as nat, 256);
    lemma_phase_after_closed_form(pos, step, k);
    lemma_phase_after_closed_form(pos, step, k + d);
    lemma_period_strides_vanish(step);
    let x = pos + k * step;
    let y = pos + (k + d) * step;
    if y % 256 == x % 256 {
        lemma_mod_equivalence(y, x, 256);
        assert(y - x == d * step) by (nonlinear_arith)
            requires
                x == pos + k * step,
                y == pos + (k + d) * step,
        ;
        let t = (d * step) / 256;
        lemma_fundamental_div_mod(d * step, 256);
        let (a, b) = lemma_gcd_combination(step as nat, 256);
        let m = t * a + b * d;
        assert(p * g * m == g * d) by (nonlinear_arith)
            requires
                p * g == 256,
                d * step == 256 * t,
                step * a + 256 * b == g,
                m == t * a + b * d,
        ;
        assert(p * m == d) by (nonlinear_arith)
            requires
                p * g * m == g * d,
                g > 0,
        ;
        assert(false) by (nonlinear_arith)
            requires
                p * m == d,
                0 < d < p,
        ;
    }
}

/// Two generators of one stride keep their distance on the wheel for ever.
pub proof fn lemma_phase_offset_constant(pos_a: u8, pos_b: u8, step: u8, k: nat)
    ensures
        (phase_after(pos_a, step, k) - phase_after(pos_b, step, k)) % 256 == (pos_a - pos_b) % 256,
{
    lemma_phase_after_closed_form(pos_a, step, k);
    lemma_phase_after_closed_form(pos_b, step, k);
    let x = pos_a + k * step;
    let y = pos_b + k * step;
    lemma_sub_mod_noop(x, y, 256);
}

} // verus!
