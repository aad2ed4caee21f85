//! The brightness ramp that the periodic tick task drives: an accumulator
//! that moves by a signed step on every tick, is kept inside `[0, max)` by
//! one of three policies, and is turned into a PWM duty through the gamma
//! table.

use vstd::prelude::*;
use vstd::arithmetic::div_mod::*;
use crate::gamma::{gamma8, gamma_value, lemma_gamma_monotonic};

verus! {

/// What happens when the accumulator would leave `[0, max)`.
#[derive(Clone, Copy, Debug, PartialEq, Eq, Structural)]
pub enum EdgePolicy {
    /// It stops at the bound it ran into. The step keeps its sign.
    Clamp,
    /// It comes back in at the other end, as a remainder modulo `max`.
    Wrap,
    /// It turns round at the bound and runs back, and the step changes sign.
    Bounce,
}

/// The length of one full swing up and down between 0 and `max - 1`.
pub open spec fn swing(max: int) -> int {
    2 * (max - 1)
}

/// Where position `pos` lands in `[0, max)` under `policy`.
pub open spec fn folded(pos: int, max: int, policy: EdgePolicy) -> int {
    match policy {
        EdgePolicy::Clamp => if pos < 0 {
            0
        } else if pos >= max {
            max - 1
        } else {
            pos
        },
        EdgePolicy::Wrap => pos % max,
        EdgePolicy::Bounce => if max == 1 {
            0
        } else if pos % swing(max) < max {
            pos % swing(max)
        } else {
            swing(max) - pos % swing(max)
        },
    }
}

/// Whether landing `pos` under `policy` reverses the direction of travel:
/// only a bounce does, when the position lands on the way back.
pub open spec fn turned(pos: int, max: int, policy: EdgePolicy) -> bool {
    policy == EdgePolicy::Bounce && max > 1 && pos % swing(max) >= max
}

/// The step in the other direction. The one step without a negative of its
/// own becomes the largest step.
pub open spec fn reversed(delta: i32) -> i32 {
    if delta == i32::MIN {
        i32::MAX
    } else {
        (-delta) as i32
    }
}

/// The PWM duty for accumulator value `cur` out of `max`: the accumulator
/// is scaled to the gamma table's 256 levels, corrected, and scaled back to
/// the duty range.
pub open spec fn duty_for(cur: int, max: int) -> int {
    gamma_value(cur * 256 / max) * max / 255
}

/// Every policy lands inside `[0, max)`.
pub proof fn lemma_folded_in_range(pos: int, max: int, policy: EdgePolicy)
    requires
        max > 0,
    ensures
        0 <= folded(pos, max, policy) < max,
{
    if max > 1 {
        lemma_mod_bound(pos, swing(max));
    }
    lemma_mod_bound(pos, max);
}

/// A position that is inside `[0, max)` already stays where it is and does
/// not turn, under every policy.
pub proof fn lemma_folded_fixed(pos: int, max: int, policy: EdgePolicy)
    requires
        0 <= pos < max,
    ensures
        folded(pos, max, policy) == pos,
        !turned(pos, max, policy),
{
    lemma_small_mod(pos as nat, max as nat);
    if max > 1 {
        lemma_small_mod(pos as nat, swing(max) as nat);
    }
}

/// The duty never exceeds `max`, and a higher accumulator never gives a
/// lower duty.
pub proof fn lemma_duty_bounds(cur: int, max: int)
    requires
        0 <= cur < max,
    ensures
        0 <= cur * 256 / max < 256,
        0 <= duty_for(cur, max) <= max,
{
    lemma_level_in_table(cur, max);
    let g = gamma_value(cur * 256 / max) as int;
    assert(0 <= g * max <= 255 * max) by (nonlinear_arith)
        requires
            0 <= g <= 255,
            max > 0,
    ;
    lemma_div_is_ordered(g * max, 255 * max, 255);
    lemma_div_multiples_vanish(max, 255);
    assert(255 * max == max * 255) by (nonlinear_arith);
    lemma_div_pos_is_pos(g * max, 255);
}

proof fn lemma_level_in_table(cur: int, max: int)
    requires
        0 <= cur < max,
    ensures
        0 <= cur * 256 / max < 256,
{
    assert(0 <= cur * 256 < 256 * max) by (nonlinear_arith)
        requires
            0 <= cur < max,
    ;
    lemma_div_pos_is_pos(cur * 256, max);
    lemma_div_by_multiple_is_strongly_ordered(cur * 256, 256 * max, 256, max);
    lemma_div_multiples_vanish(256, max);
}

/// A higher accumulator never gives a lower duty.
pub proof fn lemma_duty_monotone(a: int, b: int, max: int)
    requires
        0 <= a <= b < max,
    ensures
        duty_for(a, max) <= duty_for(b, max),
{
    lemma_level_in_table(a, max);
    lemma_level_in_table(b, max);
    assert(a * 256 <= b * 256);
    lemma_div_is_ordered(a * 256, b * 256, max);
    lemma_gamma_monotonic(a * 256 / max, b * 256 / max);
    let ga = gamma_value(a * 256 / max) as int;
    let gb = gamma_value(b * 256 / max) as int;
    assert(ga * max <= gb * max) by (nonlinear_arith)
        requires
            ga <= gb,
            max > 0,
    ;
    lemma_div_is_ordered(ga * max, gb * max, 255);
}

/// The remainder of `x` modulo `m` that is never negative.
fn floor_mod(x: i64, m: i64) -> (r: i64)
    requires
        m > 0,
        -0x1_0000_0000 <= x <= 0x1_0000_0000,
    ensures
        r == x % m,
        0 <= r < m,
{
    if x >= 0 {
        proof {
            lemma_mod_bound(x as int, m as int);
        }
        x % m
    } else {
        let y: i64 = -x;
        let r: i64 = y % m;
        proof {
            lemma_mod_bound(y as int, m as int);
            lemma_fundamental_div_mod(y as int, m as int);
            let q = (y as int) / (m as int);
            if r == 0 {
                assert(x == (-q) * m + 0) by (nonlinear_arith)
                    requires
                        y == m * q,
                        x == -y,
                ;
                lemma_fundamental_div_mod_converse_mod(x as int, m as int, -q, 0);
            } else {
                assert(x == (-q - 1) * m + (m - r)) by (nonlinear_arith)
                    requires
                        y == m * q + r,
                        x == -y,
                ;
                lemma_fundamental_div_mod_converse_mod(x as int, m as int, -q - 1, m - r);
            }
        }
        if r == 0 {
            0
        } else {
            m - r
        }
    }
}

/// Brings position `pos` into `[0, max)` under `policy`, and says whether
/// the direction of travel reverses.
pub fn land(pos: i64, max: i32, policy: EdgePolicy) -> (r: (i32, bool))
    requires
        max > 0,
        -0x1_0000_0000 <= pos <= 0x1_0000_0000,
    ensures
        r.0 == folded(pos as int, max as int, policy),
        r.1 == turned(pos as int, max as int, policy),
{
    let limit: i64 = max as i64;
    match policy {
        EdgePolicy::Clamp => {
            if pos < 0 {
                (0, false)
            } else if pos >= limit {
                (max - 1, false)
            } else {
                (pos as i32, false)
            }
        },
        EdgePolicy::Wrap => {
            let r = floor_mod(pos, limit);
            (r as i32, false)
        },
        EdgePolicy::Bounce => {
            if max == 1 {
                (0, false)
            } else {
                let span: i64 = 2 * (limit - 1);
                let p = floor_mod(pos, span);
                if p < limit {
                    (p as i32, false)
                } else {
                    ((span - p) as i32, true)
                }
            }
        },
    }
}

/// The step in the other direction.
pub fn reverse(delta: i32) -> (r: i32)
    ensures
        r == reversed(delta),
{
    if delta == i32::MIN {
        i32::MAX
    } else {
        -delta
    }
}

/// The PWM duty for accumulator value `cur` out of `max`.
pub fn duty(cur: i32, max: i32) -> (d: u32)
    requires
        0 <= cur < max,
    ensures
        d == duty_for(cur as int, max as int),
        d <= max,
{
    proof {
        lemma_duty_bounds(cur as int, max as int);
    }
    let level: u64 = (cur as u64) * 256 / (max as u64);
    let corrected: u64 = gamma8(level as u8) as u64;
    assert(corrected * max <= 255 * 0x8000_0000) by (nonlinear_arith)
        requires
            0 <= corrected <= 255,
            0 < max <= 0x8000_0000,
    ;
    (corrected * (max as u64) / 255) as u32
}

} // verus!
