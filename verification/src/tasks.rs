//! The state that the tasks share and what each task does with it. The
//! functions here compute; reading the devices and writing to them is left
//! to the caller.

use vstd::prelude::*;
use vstd::string::*;
use crate::clock::Instant;
use crate::console::DisplayLine;
use crate::duty::{duty, duty_for, folded, land, reverse, reversed, turned, EdgePolicy};
use crate::power::ZONE_COUNT;
use crate::text::{decimal, push_decimal};

verus! {

/// The state that tasks of different priority share.
#[derive(Clone, Copy, Debug, PartialEq, Eq, Structural)]
pub struct Shared {
    /// The brightness accumulator, in `[0, max)`.
    pub cur: i32,
    /// The PWM output's full duty.
    pub max: i32,
    /// How far the accumulator moves on each tick.
    pub delta: i32,
    /// Toggled by every button edge.
    pub is_on: bool,
    /// Toggled by every tick; drives the heartbeat LED.
    pub is_on2: bool,
    /// What happens at the ends of the accumulator's range.
    pub policy: EdgePolicy,
}

/// What the tick task asks of the outputs.
#[derive(Clone, Copy, Debug, PartialEq, Eq, Structural)]
pub struct TickOutput {
    /// The duty to set on the PWM output, never above the full duty.
    pub duty: u32,
    /// Whether the heartbeat LED is to be driven high.
    pub led_high: bool,
}

impl Shared {
    /// The output has a duty range and the accumulator lies inside it.
    pub open spec fn wf(&self) -> bool {
        0 < self.max && 0 <= self.cur < self.max
    }

    /// The state at start: accumulator at 0, one step up per tick, both
    /// flags off. There is no state for an output whose full duty is 0 or
    /// does not fit in 31 bits.
    pub fn new(max_duty: u32, policy: EdgePolicy) -> (s: Option<Shared>)
        ensures
            s is Some <==> 0 < max_duty <= i32::MAX,
            s matches Some(v) ==> v.wf() && v.cur == 0 && v.max == max_duty && v.delta == 1
                && !v.is_on && !v.is_on2 && v.policy == policy,
    {
        if max_duty == 0 || max_duty > 0x7fff_ffff {
            None
        } else {
            Some(
                Shared {
                    cur: 0,
                    max: max_duty as i32,
                    delta: 1,
                    is_on: false,
                    is_on2: false,
                    policy,
                },
            )
        }
    }
}

/// The periodic tick: moves the accumulator by the step, brings it back
/// into range by the policy, reverses the step if the accumulator turned,
/// and flips the heartbeat. Returns the gamma-corrected duty for the new
/// accumulator value and the heartbeat's new state.
pub fn tick_task(shared: &mut Shared) -> (out: TickOutput)
    requires
        old(shared).wf(),
    ensures
        final(shared).wf(),
        final(shared).max == old(shared).max,
        final(shared).policy == old(shared).policy,
        final(shared).is_on == old(shared).is_on,
        final(shared).cur == folded(
            old(shared).cur + old(shared).delta,
            old(shared).max as int,
            old(shared).policy,
        ),
        final(shared).delta == if turned(
            old(shared).cur + old(shared).delta,
            old(shared).max as int,
            old(shared).policy,
        ) {
            reversed(old(shared).delta)
        } else {
            old(shared).delta
        },
        final(shared).is_on2 == !old(shared).is_on2,
        out.duty == duty_for(final(shared).cur as int, final(shared).max as int),
        out.duty <= final(shared).max,
        out.led_high == final(shared).is_on2,
{
    proof {
        crate::duty::lemma_folded_in_range(
            shared.cur + shared.delta,
            shared.max as int,
            shared.policy,
        );
    }
    let target: i64 = shared.cur as i64 + shared.delta as i64;
    let (cur, turns) = land(target, shared.max, shared.policy);
    shared.cur = cur;
    if turns {
        shared.delta = reverse(shared.delta);
    }
    shared.is_on2 = !shared.is_on2;
    TickOutput { duty: duty(shared.cur, shared.max), led_high: shared.is_on2 }
}

/// A button edge: flips the on/off flag and publishes the direction that
/// goes with its new state, up when on and down when off. Returns the
/// published step.
pub fn edge_task(shared: &mut Shared) -> (delta: i32)
    ensures
        final(shared).is_on == !old(shared).is_on,
        final(shared).delta == (if old(shared).is_on {
            -1i32
        } else {
            1i32
        }),
        delta == final(shared).delta,
        final(shared).cur == old(shared).cur,
        final(shared).max == old(shared).max,
        final(shared).is_on2 == old(shared).is_on2,
        final(shared).policy == old(shared).policy,
{
    let delta: i32 = if !shared.is_on {
        shared.is_on = true;
        1
    } else {
        shared.is_on = false;
        -1
    };
    shared.delta = delta;
    delta
}

/// An instant as the display shows it.
pub open spec fn instant_text(t: Instant) -> Seq<char> {
    "Instant("@ + decimal(t.ticks as int) + ")"@
}

/// The direction as the display shows it.
pub open spec fn direction_text(up: bool) -> Seq<char> {
    if up {
        "up!"@
    } else {
        "down!"@
    }
}

/// The accumulator as the display shows it.
pub open spec fn accumulator_text(cur: i32) -> Seq<char> {
    "cur: "@ + decimal(cur as int)
}

/// The estimate for zone `z` as the display shows it.
pub open spec fn zone_text(z: int, current: u32) -> Seq<char> {
    "I("@ + decimal(z) + "): "@ + decimal(current as int)
}

/// The line that shows an instant on the given row.
fn instant_line(row: i32, t: Instant) -> (line: DisplayLine)
    ensures
        line.row == row,
        line.text@ == instant_text(t),
{
    let mut text = String::from_str("Instant(");
    push_decimal(&mut text, t.ticks as i64);
    text.append(")");
    DisplayLine { row, text }
}

/// The lines of the ramp's status display: the direction on row 1, the
/// accumulator on row 2, and on row 3 the deadline this refresh was due at.
pub fn status_lines(shared: &Shared, scheduled: Instant) -> (lines: Vec<DisplayLine>)
    ensures
        lines@.len() == 3,
        lines@[0].row == 1,
        lines@[0].text@ == direction_text(shared.delta > 0),
        lines@[1].row == 2,
        lines@[1].text@ == accumulator_text(shared.cur),
        lines@[2].row == 3,
        lines@[2].text@ == instant_text(scheduled),
{
    let mut lines: Vec<DisplayLine> = Vec::new();
    let direction = if shared.delta > 0 {
        String::from_str("up!")
    } else {
        String::from_str("down!")
    };
    lines.push(DisplayLine { row: 1, text: direction });
    let mut text = String::from_str("cur: ");
    push_decimal(&mut text, shared.cur as i64);
    lines.push(DisplayLine { row: 2, text });
    lines.push(instant_line(3, scheduled));
    lines
}

/// The lines of the panel's power display: the estimate of zone `z` on row
/// `z + 1`, and on row 5 the deadline this refresh was due at.
pub fn current_lines(current: &[u32; ZONE_COUNT], scheduled: Instant) -> (lines: Vec<DisplayLine>)
    ensures
        lines@.len() == ZONE_COUNT + 1,
        forall|z: int|
            0 <= z < ZONE_COUNT ==> (#[trigger] lines@[z]).row == z + 1 && lines@[z].text@
                == zone_text(z, current@[z]),
        lines@[ZONE_COUNT as int].row == 5,
        lines@[ZONE_COUNT as int].text@ == instant_text(scheduled),
{
    let mut lines: Vec<DisplayLine> = Vec::new();
    let mut z: usize = 0;
    while z < ZONE_COUNT
        invariant
            z <= ZONE_COUNT,
            lines@.len() == z,
            forall|j: int|
                0 <= j < z ==> (#[trigger] lines@[j]).row == j + 1 && lines@[j].text@ == zone_text(
                    j,
                    current@[j],
                ),
        decreases ZONE_COUNT - z,
    {
        let mut text = String::from_str("I(");
        push_decimal(&mut text, z as i64);
        text.append("): ");
        push_decimal(&mut text, current[z] as i64);
        lines.push(DisplayLine { row: (z + 1) as i32, text });
        z = z + 1;
    }
    lines.push(instant_line(5, scheduled));
    lines
}

} // verus!
