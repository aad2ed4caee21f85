//! A coarse estimate of the current that a strip draws, zone by zone, from
//! the colours it was told to show.

use vstd::prelude::*;
use crate::color::Rgb;

verus! {

/// Pixels on the large panel.
pub const NUM_LEDS: usize = 291;

/// Zones of the large panel.
pub const ZONE_COUNT: usize = 4;

/// What a zone draws with every pixel dark.
pub const ZONE_BASE: u32 = 78;

/// What one channel draws at full brightness.
pub const CHANNEL_CURRENT: u32 = 12;

/// The longest buffer whose zone totals fit in 32 bits whatever its colours.
pub const MAX_PIXELS: usize = 119_304_644;

/// What one pixel draws: the three channels together, scaled so that a
/// channel at 255 counts as `CHANNEL_CURRENT`, rounded down.
pub open spec fn pixel_power(c: Rgb) -> nat {
    ((c.r + c.g + c.b) * 12 / 255) as nat
}

/// What the pixels `start..end` of `data` draw together.
pub open spec fn span_power(data: Seq<Rgb>, start: int, end: int) -> nat
    decreases end - start,
{
    if end <= start {
        0
    } else {
        span_power(data, start, end - 1) + pixel_power(data[end - 1])
    }
}

/// The first pixel of zone `z`, where zone `i` has `sizes[i]` pixels and the
/// zones follow one another from pixel 0 on.
pub open spec fn zone_start(sizes: Seq<usize>, z: int) -> int
    decreases z,
{
    if z <= 0 {
        0
    } else {
        zone_start(sizes, z - 1) + sizes[z - 1]
    }
}

/// The estimate for zone `z`: the base offset plus what its pixels draw.
pub open spec fn zone_estimate(data: Seq<Rgb>, sizes: Seq<usize>, z: int) -> nat {
    ZONE_BASE as nat + span_power(data, zone_start(sizes, z), zone_start(sizes, z + 1))
}

/// The zones cover the buffer exactly: their sizes add up to its length.
pub open spec fn partitions(sizes: Seq<usize>, len: int) -> bool {
    zone_start(sizes, sizes.len() as int) == len
}

/// The large panel's zones, as wired.
pub open spec fn panel_zones() -> Seq<usize> {
    seq![86usize, 68usize, 68usize, 69usize]
}

/// One pixel draws at most three channels' worth.
pub proof fn lemma_pixel_power_bound(c: Rgb)
    ensures
        pixel_power(c) <= 36,
{
}

/// A span draws at most 36 per pixel.
pub proof fn lemma_span_power_bound(data: Seq<Rgb>, start: int, end: int)
    requires
        start <= end,
    ensures
        span_power(data, start, end) <= 36 * (end - start),
    decreases end - start,
{
    if start < end {
        lemma_span_power_bound(data, start, end - 1);
    }
}

/// Zone starts never go backwards.
pub proof fn lemma_zone_start_ordered(sizes: Seq<usize>, a: int, b: int)
    requires
        0 <= a <= b,
    ensures
        0 <= zone_start(sizes, a) <= zone_start(sizes, b),
    decreases b,
{
    if a < b {
        lemma_zone_start_ordered(sizes, a, b - 1);
    } else if 0 < a {
        lemma_zone_start_ordered(sizes, a - 1, a - 1);
    }
}

/// What one pixel draws.
pub fn rgb8_to_power(c: &Rgb) -> (p: u32)
    ensures
        p == pixel_power(*c),
{
    let total: u32 = c.r as u32 + c.g as u32 + c.b as u32;
    total * CHANNEL_CURRENT / 255
}

/// What the pixels `start..end` draw together, without a base offset.
pub fn span_current(data: &[Rgb], start: usize, end: usize) -> (total: u32)
    requires
        start <= end <= data@.len() <= MAX_PIXELS,
    ensures
        total == span_power(data@, start as int, end as int),
{
    let mut total: u32 = 0;
    let mut i: usize = start;
    while i < end
        invariant
            start <= i <= end <= data@.len() <= MAX_PIXELS,
            total == span_power(data@, start as int, i as int),
            total <= 36 * (i - start),
        decreases end - i,
    {
        let p = rgb8_to_power(&data[i]);
        total = total + p;
        i = i + 1;
    }
    total
}

/// The estimate for every zone of a buffer cut into zones of the given
/// sizes, in order. There is no estimate where the sizes do not add up to the
/// buffer's length.
pub fn estimate_zones(data: &[Rgb], sizes: &[usize]) -> (out: Option<Vec<u32>>)
    requires
        data@.len() <= MAX_PIXELS,
    ensures
        out.is_some() <==> partitions(sizes@, data@.len() as int),
        out matches Some(v) ==> v@.len() == sizes@.len() && forall|z: int|
            0 <= z < sizes@.len() ==> #[trigger] v@[z] == zone_estimate(data@, sizes@, z),
{
    let mut out: Vec<u32> = Vec::new();
    let mut start: usize = 0;
    let mut z: usize = 0;
    while z < sizes.len()
        invariant
            z <= sizes@.len(),
            start == zone_start(sizes@, z as int),
            start <= data@.len() <= MAX_PIXELS,
            out@.len() == z,
            forall|j: int| 0 <= j < z ==> #[trigger] out@[j] == zone_estimate(data@, sizes@, j),
        decreases sizes@.len() - z,
    {
        let size = sizes[z];
        if size > data.len() - start {
            proof {
                lemma_zone_start_ordered(sizes@, z + 1, sizes@.len() as int);
            }
            return None;
        }
        let end: usize = start + size;
        let drawn = span_current(data, start, end);
        proof {
            lemma_span_power_bound(data@, start as int, end as int);
        }
        out.push(ZONE_BASE + drawn);
        start = end;
        z = z + 1;
    }
    if start == data.len() {
        Some(out)
    } else {
        None
    }
}

/// The large panel's zones cover its 291 pixels.
pub proof fn lemma_panel_zones()
    ensures
        zone_start(panel_zones(), 0) == 0,
        zone_start(panel_zones(), 1) == 86,
        zone_start(panel_zones(), 2) == 154,
        zone_start(panel_zones(), 3) == 222,
        zone_start(panel_zones(), 4) == 291,
        partitions(panel_zones(), NUM_LEDS as int),
{
    reveal_with_fuel(zone_start, 5);
}

/// The estimate for each of the large panel's four zones.
pub fn estimate_current(data: &[Rgb; NUM_LEDS]) -> (out: [u32; ZONE_COUNT])
    ensures
        forall|z: int|
            0 <= z < ZONE_COUNT ==> #[trigger] out@[z] == zone_estimate(data@, panel_zones(), z),
{
    let pixels = data.as_slice();
    proof {
        lemma_panel_zones();
        lemma_span_power_bound(data@, 0, 86);
        lemma_span_power_bound(data@, 86, 154);
        lemma_span_power_bound(data@, 154, 222);
        lemma_span_power_bound(data@, 222, 291);
    }
    let out: [u32; ZONE_COUNT] = [
        ZONE_BASE + span_current(pixels, 0, 86),
        ZONE_BASE + span_current(pixels, 86, 154),
        ZONE_BASE + span_current(pixels, 154, 222),
        ZONE_BASE + span_current(pixels, 222, 291),
    ];
    out
}

/// Every pixel of the buffer is dark.
pub open spec fn all_black(data: Seq<Rgb>) -> bool {
    forall|i: int| 0 <= i < data.len() ==> (#[trigger] data[i]) == (Rgb { r: 0, g: 0, b: 0 })
}

/// No channel of `b` is darker than it is in `a`.
pub open spec fn at_least_as_bright(a: Rgb, b: Rgb) -> bool {
    a.r <= b.r && a.g <= b.g && a.b <= b.b
}

/// Whether pixel `i` lies in zone `z`.
pub open spec fn in_zone(sizes: Seq<usize>, z: int, i: int) -> bool {
    zone_start(sizes, z) <= i < zone_start(sizes, z + 1)
}

/// Dark pixels draw nothing.
pub proof fn lemma_black_span(data: Seq<Rgb>, start: int, end: int)
    requires
        all_black(data),
        0 <= start <= end <= data.len(),
    ensures
        span_power(data, start, end) == 0,
    decreases end - start,
{
    if start < end {
        lemma_black_span(data, start, end - 1);
        assert(data[end - 1] == (Rgb { r: 0, g: 0, b: 0 }));
    }
}

/// With every pixel dark, each zone's estimate is the base offset, whatever
/// the partition.
pub proof fn lemma_black_estimate_is_base(data: Seq<Rgb>, sizes: Seq<usize>, z: int)
    requires
        all_black(data),
        partitions(sizes, data.len() as int),
        0 <= z < sizes.len(),
    ensures
        zone_estimate(data, sizes, z) == ZONE_BASE,
{
    lemma_zone_start_ordered(sizes, z, z + 1);
    lemma_zone_start_ordered(sizes, z + 1, sizes.len() as int);
    lemma_black_span(data, zone_start(sizes, z), zone_start(sizes, z + 1));
}

/// A pixel that is at least as bright in every channel draws at least as
/// much, and draws more once its channels together have risen by 22.
pub proof fn lemma_pixel_power_monotone(a: Rgb, b: Rgb)
    requires
        at_least_as_bright(a, b),
    ensures
        pixel_power(a) <= pixel_power(b),
        a.r + a.g + a.b + 22 <= b.r + b.g + b.b ==> pixel_power(a) < pixel_power(b),
{
}

/// Replacing pixel `i` changes what a span draws by the change in that
/// pixel's own draw if the span holds it, and not at all if it does not.
pub proof fn lemma_span_power_update(data: Seq<Rgb>, start: int, end: int, i: int, c: Rgb)
    requires
        0 <= start <= end <= data.len(),
        0 <= i < data.len(),
    ensures
        span_power(data.update(i, c), start, end) == span_power(data, start, end) + (if start <= i
            < end {
            pixel_power(c) - pixel_power(data[i])
        } else {
            0
        }),
    decreases end - start,
{
    if start < end {
        lemma_span_power_update(data, start, end - 1, i, c);
    }
}

/// Replacing pixel `i` moves the estimate of the zone that holds it by the
/// change in that pixel's draw, and leaves every other zone's estimate as it
/// was.
pub proof fn lemma_estimate_update(data: Seq<Rgb>, sizes: Seq<usize>, z: int, i: int, c: Rgb)
    requires
        partitions(sizes, data.len() as int),
        0 <= z < sizes.len(),
        0 <= i < data.len(),
    ensures
        zone_estimate(data.update(i, c), sizes, z) == zone_estimate(data, sizes, z) + (if in_zone(
            sizes,
            z,
            i,
        ) {
            pixel_power(c) - pixel_power(data[i])
        } else {
            0
        }),
{
    lemma_zone_start_ordered(sizes, z, z + 1);
    lemma_zone_start_ordered(sizes, z + 1, sizes.len() as int);
    lemma_span_power_update(data, zone_start(sizes, z), zone_start(sizes, z + 1), i, c);
}

/// The estimate is monotonic in colour intensity: brightening one pixel
/// lowers no zone's estimate, and raises the estimate of the pixel's zone
/// exactly when the pixel's own draw rises.
pub proof fn lemma_estimate_monotone(data: Seq<Rgb>, sizes: Seq<usize>, z: int, i: int, c: Rgb)
    requires
        partitions(sizes, data.len() as int),
        0 <= z < sizes.len(),
        0 <= i < data.len(),
        at_least_as_bright(data[i], c),
    ensures
        zone_estimate(data, sizes, z) <= zone_estimate(data.update(i, c), sizes, z),
        zone_estimate(data, sizes, z) < zone_estimate(data.update(i, c), sizes, z) <==> in_zone(
            sizes,
            z,
            i,
        ) && pixel_power(data[i]) < pixel_power(c),
{
    lemma_estimate_update(data, sizes, z, i, c);
    lemma_pixel_power_monotone(data[i], c);
}

} // verus!
