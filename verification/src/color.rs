//! Colours and the rainbow generator.

use vstd::prelude::*;

verus! {

/// One pixel: red, green and blue, eight bits each.
#[derive(Clone, Copy, Debug, PartialEq, Eq, Structural)]
pub struct Rgb {
    pub r: u8,
    pub g: u8,
    pub b: u8,
}

impl Rgb {
    /// All channels dark.
    pub fn black() -> (c: Rgb)
        ensures
            c == (Rgb { r: 0, g: 0, b: 0 }),
    {
        Rgb { r: 0, g: 0, b: 0 }
    }

    /// Full red.
    pub fn red() -> (c: Rgb)
        ensures
            c == (Rgb { r: 255, g: 0, b: 0 }),
    {
        Rgb { r: 255, g: 0, b: 0 }
    }

    /// Full green.
    pub fn green() -> (c: Rgb)
        ensures
            c == (Rgb { r: 0, g: 255, b: 0 }),
    {
        Rgb { r: 0, g: 255, b: 0 }
    }

    /// Full blue.
    pub fn blue() -> (c: Rgb)
        ensures
            c == (Rgb { r: 0, g: 0, b: 255 }),
    {
        Rgb { r: 0, g: 0, b: 255 }
    }

    /// Green and blue at full.
    pub fn cyan() -> (c: Rgb)
        ensures
            c == (Rgb { r: 0, g: 255, b: 255 }),
    {
        Rgb { r: 0, g: 255, b: 255 }
    }

    /// Red and blue at full.
    pub fn magenta() -> (c: Rgb)
        ensures
            c == (Rgb { r: 255, g: 0, b: 255 }),
    {
        Rgb { r: 255, g: 0, b: 255 }
    }

    /// Red and green at full.
    pub fn yellow() -> (c: Rgb)
        ensures
            c == (Rgb { r: 255, g: 255, b: 0 }),
    {
        Rgb { r: 255, g: 255, b: 0 }
    }
}

/// The band of the hue wheel that position `p` falls in: 0 where red fades
/// into blue, 1 where blue fades into green, 2 where green fades into red.
/// Positions are counted down from 255, so band 0 holds the highest ones.
pub open spec fn wheel_band(p: u8) -> int {
    if 255 - p < 85 {
        0
    } else if 255 - p < 170 {
        1
    } else {
        2
    }
}

/// The colour at position `p` of the hue wheel: three linear ramps, each 85
/// positions wide, in which one channel is dark, one rises by 3 per position
/// and one falls by 3 per position.
pub open spec fn wheel_color(p: u8) -> Rgb {
    let q = 255 - p;
    if q < 85 {
        Rgb { r: (255 - 3 * q) as u8, g: 0, b: (3 * q) as u8 }
    } else if q < 170 {
        Rgb { r: 0, g: (3 * (q - 85)) as u8, b: (255 - 3 * (q - 85)) as u8 }
    } else {
        Rgb { r: (3 * (q - 170)) as u8, g: (255 - 3 * (q - 170)) as u8, b: 0 }
    }
}

/// Maps a wheel position to its colour.
pub fn wheel(wheel_pos: u8) -> (c: Rgb)
    ensures
        c == wheel_color(wheel_pos),
{
    let q: u8 = 255 - wheel_pos;
    if q < 85 {
        Rgb { r: 255 - q * 3, g: 0, b: q * 3 }
    } else if q < 170 {
        let q: u8 = q - 85;
        Rgb { r: 0, g: q * 3, b: 255 - q * 3 }
    } else {
        let q: u8 = q - 170;
        Rgb { r: q * 3, g: 255 - q * 3, b: 0 }
    }
}

/// The distance between two channel values.
pub open spec fn channel_gap(a: u8, b: u8) -> int {
    if a <= b {
        b - a
    } else {
        a - b
    }
}

/// In every band exactly one channel is dark, the band's own, and the three
/// channels together always give 255.
pub proof fn lemma_wheel_one_band(p: u8)
    ensures
        0 <= wheel_band(p) <= 2,
        wheel_color(p).r + wheel_color(p).g + wheel_color(p).b == 255,
        wheel_band(p) == 0 ==> wheel_color(p).g == 0,
        wheel_band(p) == 1 ==> wheel_color(p).r == 0,
        wheel_band(p) == 2 ==> wheel_color(p).b == 0,
{
}

/// The wheel has no jumps: from one position to the next no channel moves
/// by more than 3, also where one band ends and the next begins.
pub proof fn lemma_wheel_continuous(p: u8)
    requires
        p < 255,
    ensures
        channel_gap(wheel_color(p).r, wheel_color((p + 1) as u8).r) <= 3,
        channel_gap(wheel_color(p).g, wheel_color((p + 1) as u8).g) <= 3,
        channel_gap(wheel_color(p).b, wheel_color((p + 1) as u8).b) <= 3,
{
}

/// Different positions give different colours, but for the two ends of the
/// wheel, which both give full red.
pub proof fn lemma_wheel_distinct(p: u8, q: u8)
    requires
        p < q,
        !(p == 0 && q == 255),
    ensures
        wheel_color(p) != wheel_color(q),
{
}

/// The wheel closes: its two ends give the same colour.
pub proof fn lemma_wheel_closes()
    ensures
        wheel_color(0) == wheel_color(255),
        wheel_color(0) == (Rgb { r: 255, g: 0, b: 0 }),
{
}

/// The position that follows `pos` in a generator of stride `step`.
pub open spec fn next_phase(pos: u8, step: u8) -> u8 {
    ((pos + step) % 256) as u8
}

/// The position a generator started at `pos` holds after `k` colours were
/// taken from it.
pub open spec fn phase_after(pos: u8, step: u8, k: nat) -> u8
    decreases k,
{
    if k == 0 {
        pos
    } else {
        next_phase(phase_after(pos, step, (k - 1) as nat), step)
    }
}

/// The `k`-th colour, counted from zero, of a generator started at `pos`.
pub open spec fn kth_color(pos: u8, step: u8, k: nat) -> Rgb {
    wheel_color(phase_after(pos, step, k))
}

/// An endless walk around the hue wheel: each call of `next` hands out the
/// colour at the current position and moves on by a fixed stride.
pub struct Rainbow {
    pos: u8,
    step: u8,
}

impl Rainbow {
    /// The wheel position of the colour that `next` hands out next.
    pub closed spec fn phase(&self) -> u8 {
        self.pos
    }

    /// How far `next` moves the position on.
    pub closed spec fn stride(&self) -> u8 {
        self.step
    }

    /// A generator of the given stride that starts at position 0.
    pub fn step(step: u8) -> (r: Self)
        ensures
            r.phase() == 0,
            r.stride() == step,
    {
        Rainbow { pos: 0, step }
    }

    /// A generator of the given stride that starts at position `pos`.
    pub fn step_phase(step: u8, pos: u8) -> (r: Self)
        ensures
            r.phase() == pos,
            r.stride() == step,
    {
        Rainbow { pos, step }
    }

    /// Hands out the colour at the current position and advances by the
    /// stride, wrapping at 256. There is always a next colour.
    pub fn next(&mut self) -> (c: Option<Rgb>)
        ensures
            c == Some(wheel_color(old(self).phase())),
            final(self).phase() == next_phase(old(self).phase(), old(self).stride()),
            final(self).stride() == old(self).stride(),
    {
        let c = wheel(self.pos);
        self.pos = self.pos.wrapping_add(self.step);
        Some(c)
    }
}

impl Default for Rainbow {
    /// Starts at position 0 and visits every position in turn.
    fn default() -> (r: Self)
        ensures
            r.phase() == 0,
            r.stride() == 1,
    {
        Rainbow { pos: 0, step: 1 }
    }
}

} // verus!
