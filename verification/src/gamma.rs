use vstd::prelude::*;

verus! {

/// Perceptual correction table: entry `v` is the level stored for a linear
/// input level `v`. A linear input of 127 (half brightness) maps to 36.
pub const GAMMA8: [u8; 256] = [
    0, 0, 0, 0, 0, 0, 0, 0, 0, 0, 0, 0, 0, 0, 0, 0,
    0, 0, 0, 0, 0, 0, 0, 0, 0, 0, 0, 0, 1, 1, 1, 1,
    1, 1, 1, 1, 1, 1, 1, 1, 1, 2, 2, 2, 2, 2, 2, 2,
    2, 3, 3, 3, 3, 3, 3, 3, 4, 4, 4, 4, 4, 5, 5, 5,
    5, 6, 6, 6, 6, 7, 7, 7, 7, 8, 8, 8, 9, 9, 9, 10,
    10, 10, 11, 11, 11, 12, 12, 13, 13, 13, 14, 14, 15, 15, 16, 16,
    17, 17, 18, 18, 19, 19, 20, 20, 21, 21, 22, 22, 23, 24, 24, 25,
    25, 26, 27, 27, 28, 29, 29, 30, 31, 32, 32, 33, 34, 35, 35, 36,
    37, 38, 39, 39, 40, 41, 42, 43, 44, 45, 46, 47, 48, 49, 50, 50,
    51, 52, 54, 55, 56, 57, 58, 59, 60, 61, 62, 63, 64, 66, 67, 68,
    69, 70, 72, 73, 74, 75, 77, 78, 79, 81, 82, 83, 85, 86, 87, 89,
    90, 92, 93, 95, 96, 98, 99, 101, 102, 104, 105, 107, 109, 110, 112, 114,
    115, 117, 119, 120, 122, 124, 126, 127, 129, 131, 133, 135, 137, 138, 140, 142,
    144, 146, 148, 150, 152, 154, 156, 158, 160, 162, 164, 167, 169, 171, 173, 175,
    177, 180, 182, 184, 186, 189, 191, 193, 196, 198, 200, 203, 205, 208, 210, 213,
    215, 218, 220, 223, 225, 228, 231, 233, 236, 239, 241, 244, 247, 249, 252, 255,
];

/// The corrected level for the linear level `level`.
pub open spec fn corrected(level: u8) -> u8 {
    GAMMA8@[level as int]
}

/// Whether `level` is a corrected level: an entry of the table.
#[verifier::opaque]
pub open spec fn is_corrected(level: u8) -> bool {
    exists|linear: u8| #[trigger] corrected(linear) == level
}

/// Looks `level` up in the correction table.
pub fn gamma8(level: u8) -> (out: u8)
    ensures
        out == corrected(level),
        is_corrected(out),
{
    proof {
        lemma_corrected_is_corrected(level);
    }
    GAMMA8[level as usize]
}

/// What the table gives for a level is a corrected level. The darkest level
/// is one of them.
pub proof fn lemma_corrected_is_corrected(level: u8)
    ensures
        is_corrected(corrected(level)),
        is_corrected(0),
{
    reveal(is_corrected);
    assert(corrected(0) == 0);
}

/// The correction never decreases as the input grows, maps the darkest level
/// to the darkest and the brightest to the brightest.
pub proof fn lemma_gamma_monotonic(low: u8, high: u8)
    requires
        low <= high,
    ensures
        corrected(low) <= corrected(high),
        corrected(0) == 0,
        corrected(255) == 255,
{
}

} // verus!
