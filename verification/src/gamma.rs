//! Gamma correction: a fixed table from linear brightness to the value that
//! looks that bright to the eye.

use vstd::prelude::*;

verus! {

/// Perceptual brightness for each of the 256 linear levels.
pub const GAMMA8: [u8; 256] = [
    0, 0, 0, 0, 0, 0, 0, 0, 0, 0, 0, 0, 0, 0, 0, 0,
    0, 0, 0, 0, 0, 0, 0, 0, 0, 0, 0, 0, 1, 1, 1, 1,
    1, 1, 1, 1, 1, 1, 1, 1, 1, 2, 2, 2, 2, 2, 2, 2,
    2, 3, 3, 3, 3, 3, 3, 3, 4, 4, 4, 4, 4, 5, 5, 5,
    5, 6, 6, 6, 6, 7, 7, 7, 7, 8, 8, 8, 9, 9, 9, 10,
    10, 10, 11, 11, 11, 12, 12, 13, 13, 13, 14, 14, 15, 15, 16, 16,
    17, 17, 18, 18, 19, 19, 20, 20, 21, 21, 22, 22, 23, 24, 24, 25,
    25, 26, 27, 27, 28, 29, 29, 30, 31, 32, 32, 33, 34, 35, 35, 36,
    37, 38, 39, 39, 40, 41, 42, 43, 44, 45, 46, 47, 48, 49, 50, 50,
    51, 52, 54, 55, 56, 57, 58, 59, 60, 61, 62, 63, 64, 66, 67, 68,
    69, 70, 72, 73, 74, 75, 77, 78, 79, 81, 82, 83, 85, 86, 87, 89,
    90, 92, 93, 95, 96, 98, 99, 101, 102, 104, 105, 107, 109, 110, 112, 114,
    115, 117, 119, 120, 122, 124, 126, 127, 129, 131, 133, 135, 137, 138, 140, 142,
    144, 146, 148, 150, 152, 154, 156, 158, 160, 162, 164, 167, 169, 171, 173, 175,
    177, 180, 182, 184, 186, 189, 191, 193, 196, 198, 200, 203, 205, 208, 210, 213,
    215, 218, 220, 223, 225, 228, 231, 233, 236, 239, 241, 244, 247, 249, 252, 255,
];

/// The table as a function on integers.
pub open spec fn gamma_value(i: int) -> u8
    recommends
        0 <= i < 256,
{
    GAMMA8[i]
}

/// Corrects one linear brightness level.
pub fn gamma8(level: u8) -> (v: u8)
    ensures
        v == gamma_value(level as int),
{
    GAMMA8[level as usize]
}

/// A brighter level never maps to a darker value than the level below it.
proof fn lemma_gamma_adjacent(i: int)
    requires
        0 <= i < 255,
    ensures
        gamma_value(i) <= gamma_value(i + 1),
{
}

/// The table is monotonically non-decreasing over its whole domain.
pub proof fn lemma_gamma_monotonic(i: int, j: int)
    requires
        0 <= i <= j < 256,
    ensures
        gamma_value(i) <= gamma_value(j),
    decreases j - i,
{
    if i < j {
        lemma_gamma_monotonic(i, j - 1);
        lemma_gamma_adjacent(j - 1);
    }
}

/// The table keeps both ends of the range: dark stays dark, full stays full.
pub proof fn lemma_gamma_ends()
    ensures
        gamma_value(0) == 0,
        gamma_value(255) == 255,
{
}

} // verus!
