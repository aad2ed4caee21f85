//! What the strip refresh task computes: the next colour buffer from the
//! rainbow generators, its brightness-reduced copy for the transport, and
//! the power estimate that goes with it.

use vstd::prelude::*;
use crate::color::{kth_color, next_phase, phase_after, wheel_color, Rainbow, Rgb};
use crate::power::{estimate_current, panel_zones, zone_estimate, NUM_LEDS, ZONE_COUNT};

verus! {

/// One channel at reduced brightness: level 255 leaves it as it is, level 0
/// leaves one 256th of it.
pub open spec fn scaled_channel(c: u8, level: u8) -> u8 {
    (c * (level + 1) / 256) as u8
}

/// A colour at reduced brightness, channel by channel.
pub open spec fn scaled(c: Rgb, level: u8) -> Rgb {
    Rgb {
        r: scaled_channel(c.r, level),
        g: scaled_channel(c.g, level),
        b: scaled_channel(c.b, level),
    }
}

/// Calls `smart_leds::brightness` on the colours in order and collects what
/// it yields. That iterator yields one colour for each colour it is given,
/// with every channel multiplied by `level + 1` and divided by 256 in 16-bit
/// arithmetic, which cannot overflow.
#[verifier::external_body]
fn dimmed(colors: &Vec<Rgb>, level: u8) -> (out: Vec<Rgb>)
    ensures
        out@.len() == colors@.len(),
        forall|i: int| 0 <= i < colors@.len() ==> #[trigger] out@[i] == scaled(colors@[i], level),
{
    smart_leds::brightness(
        colors.iter().map(|c| smart_leds::RGB8 { r: c.r, g: c.g, b: c.b }),
        level,
    ).map(|c| Rgb { r: c.r, g: c.g, b: c.b }).collect()
}

/// Takes the next colour from every generator, in order.
pub fn advance_all(rainbows: &mut Vec<Rainbow>) -> (buffer: Vec<Rgb>)
    ensures
        buffer@.len() == old(rainbows)@.len(),
        final(rainbows)@.len() == old(rainbows)@.len(),
        forall|i: int|
            0 <= i < old(rainbows)@.len() ==> #[trigger] buffer@[i] == wheel_color(
                old(rainbows)@[i].phase(),
            ),
        forall|i: int|
            0 <= i < old(rainbows)@.len() ==> (#[trigger] final(rainbows)@[i]).phase()
                == next_phase(old(rainbows)@[i].phase(), old(rainbows)@[i].stride()),
        forall|i: int|
            0 <= i < old(rainbows)@.len() ==> (#[trigger] final(rainbows)@[i]).stride() == old(
                rainbows,
            )@[i].stride(),
{
    let mut buffer: Vec<Rgb> = Vec::new();
    let mut i: usize = 0;
    while i < rainbows.len()
        invariant
            i <= rainbows@.len(),
            rainbows@.len() == old(rainbows)@.len(),
            buffer@.len() == i,
            forall|j: int|
                0 <= j < i ==> #[trigger] buffer@[j] == wheel_color(old(rainbows)@[j].phase()),
            forall|j: int|
                0 <= j < i ==> (#[trigger] rainbows@[j]).phase() == next_phase(
                    old(rainbows)@[j].phase(),
                    old(rainbows)@[j].stride(),
                ),
            forall|j: int|
                0 <= j < i ==> (#[trigger] rainbows@[j]).stride() == old(rainbows)@[j].stride(),
            forall|j: int| i <= j < rainbows@.len() ==> #[trigger] rainbows@[j] == old(rainbows)@[j],
        decreases rainbows@.len() - i,
    {
        let ghost before = rainbows@;
        let c = rainbows[i].next();
        assert(forall|j: int| 0 <= j < rainbows@.len() && j != i ==> rainbows@[j] == before[j]);
        buffer.push(c.unwrap());
        i = i + 1;
    }
    buffer
}

/// What one refresh of the small strip produces.
pub struct StripFrame {
    /// The colour buffer: one colour from each generator.
    pub buffer: Vec<Rgb>,
    /// The buffer at reduced brightness, as it goes to the transport.
    pub output: Vec<Rgb>,
}

/// One refresh of a strip that has a generator for every pixel: takes the
/// next colour from each generator and reduces the brightness to `level`
/// for the transport.
pub fn refresh_led_strip(rainbows: &mut Vec<Rainbow>, level: u8) -> (frame: StripFrame)
    ensures
        frame.buffer@.len() == old(rainbows)@.len(),
        frame.output@.len() == old(rainbows)@.len(),
        final(rainbows)@.len() == old(rainbows)@.len(),
        forall|i: int|
            0 <= i < old(rainbows)@.len() ==> #[trigger] frame.buffer@[i] == wheel_color(
                old(rainbows)@[i].phase(),
            ),
        forall|i: int|
            0 <= i < old(rainbows)@.len() ==> #[trigger] frame.output@[i] == scaled(
                wheel_color(old(rainbows)@[i].phase()),
                level,
            ),
        forall|i: int|
            0 <= i < old(rainbows)@.len() ==> (#[trigger] final(rainbows)@[i]).phase()
                == next_phase(old(rainbows)@[i].phase(), old(rainbows)@[i].stride()),
        forall|i: int|
            0 <= i < old(rainbows)@.len() ==> (#[trigger] final(rainbows)@[i]).stride() == old(
                rainbows,
            )@[i].stride(),
{
    let buffer = advance_all(rainbows);
    let output = dimmed(&buffer, level);
    StripFrame { buffer, output }
}

/// One refresh of the large panel, which is fed from a single generator:
/// overwrites the whole buffer with the generator's next colours and
/// estimates afresh what each zone will draw.
pub fn refresh_panel(rainbow: &mut Rainbow, data: &mut [Rgb; NUM_LEDS]) -> (current: [u32;
    ZONE_COUNT])
    ensures
        forall|i: int|
            0 <= i < NUM_LEDS ==> #[trigger] final(data)@[i] == kth_color(
                old(rainbow).phase(),
                old(rainbow).stride(),
                i as nat,
            ),
        final(rainbow).phase() == phase_after(
            old(rainbow).phase(),
            old(rainbow).stride(),
            NUM_LEDS as nat,
        ),
        final(rainbow).stride() == old(rainbow).stride(),
        forall|z: int|
            0 <= z < ZONE_COUNT ==> #[trigger] current@[z] == zone_estimate(
                final(data)@,
                panel_zones(),
                z,
            ),
{
    let mut i: usize = 0;
    while i < NUM_LEDS
        invariant
            i <= NUM_LEDS,
            rainbow.stride() == old(rainbow).stride(),
            rainbow.phase() == phase_after(old(rainbow).phase(), old(rainbow).stride(), i as nat),
            forall|j: int|
                0 <= j < i ==> #[trigger] data@[j] == kth_color(
                    old(rainbow).phase(),
                    old(rainbow).stride(),
                    j as nat,
                ),
        decreases NUM_LEDS - i,
    {
        let c = rainbow.next();
        data[i] = c.unwrap();
        i = i + 1;
    }
    estimate_current(data)
}

} // verus!
