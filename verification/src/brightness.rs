use vstd::arithmetic::power2::{lemma2_to64, pow2};
use vstd::prelude::*;

verus! {

/// Whether `bits` is a brightness depth the driver accepts: one to eight bits
/// per channel.
pub open spec fn valid_bits(bits: u8) -> bool {
    1 <= bits <= 8
}

/// The distance between two neighbouring thresholds when stored 8-bit levels
/// are quantized down to `bits` bits: `2^(8 - bits)`.
pub open spec fn step_for(bits: u8) -> int {
    pow2((8 - bits) as nat) as int
}

/// The number of sub-frames of one refresh at a depth of `bits` bits:
/// `2^bits - 1`.
pub open spec fn count_for(bits: u8) -> int {
    pow2(bits as nat) - 1
}

/// The level a stored channel has to reach to be lit in sub-frame `subframe`
/// (counted from zero): `(subframe + 1) * step`, saturating at 255.
pub open spec fn threshold_for(subframe: int, step: int) -> int {
    if (subframe + 1) * step > 255 {
        255
    } else {
        (subframe + 1) * step
    }
}

/// For every accepted depth the step is a power of two between 1 and 128, the
/// count lies between 1 and 255, and count and step together cover the 8-bit
/// range up to the last step: `count * step == 256 - step`. So the product is
/// never above 255 and falls short of it by less than one step.
pub proof fn lemma_brightness_levels(bits: u8)
    requires
        valid_bits(bits),
    ensures
        count_for(bits) == pow2(bits as nat) - 1,
        1 <= step_for(bits) <= 128,
        1 <= count_for(bits) <= 255,
        count_for(bits) * step_for(bits) == 256 - step_for(bits),
        0 <= 255 - count_for(bits) * step_for(bits) < step_for(bits),
{
    lemma2_to64();
    let count = count_for(bits);
    let step = step_for(bits);
    assert(count * step == 256 - step) by (nonlinear_arith)
        requires
            count == 1 && step == 128 || count == 3 && step == 64 || count == 7 && step == 32
                || count == 15 && step == 16 || count == 31 && step == 8 || count == 63 && step
                == 4 || count == 127 && step == 2 || count == 255 && step == 1,
    ;
}

/// At an accepted depth no threshold of a refresh saturates: sub-frame
/// `subframe` lights exactly the levels from `(subframe + 1) * step` on, the
/// thresholds grow strictly from sub-frame to sub-frame, and the last one is
/// `256 - step`.
pub proof fn lemma_thresholds_exact(bits: u8, subframe: int)
    requires
        valid_bits(bits),
        0 <= subframe < count_for(bits),
    ensures
        threshold_for(subframe, step_for(bits)) == (subframe + 1) * step_for(bits),
        1 <= threshold_for(subframe, step_for(bits)) <= 256 - step_for(bits),
        subframe + 1 < count_for(bits) ==> threshold_for(subframe, step_for(bits))
            < threshold_for(subframe + 1, step_for(bits)),
{
    lemma2_to64();
    lemma_brightness_levels(bits);
    let step = step_for(bits);
    let count = count_for(bits);
    assert((subframe + 1) * step <= count * step) by (nonlinear_arith)
        requires
            subframe + 1 <= count,
            step >= 1,
    ;
    assert((subframe + 1) * step >= 1) by (nonlinear_arith)
        requires
            subframe + 1 >= 1,
            step >= 1,
    ;
    if subframe + 1 < count {
        assert((subframe + 2) * step <= count * step) by (nonlinear_arith)
            requires
                subframe + 2 <= count,
                step >= 1,
        ;
        assert((subframe + 1) * step < (subframe + 2) * step) by (nonlinear_arith)
            requires
                step >= 1,
        ;
    }
}

/// The brightness configuration of a driver: the depth chosen at construction
/// and the two constants derived from it.
pub(crate) struct Brightness {
    bits: u8,
    step: u8,
    count: u8,
}

impl Brightness {
    /// The depth is an accepted one and the constants are those of the depth.
    #[verifier::type_invariant]
    spec fn consistent(self) -> bool {
        &&& valid_bits(self.bits)
        &&& self.step == step_for(self.bits)
        &&& self.count == count_for(self.bits)
    }

    /// The depth.
    pub(crate) closed spec fn bits(self) -> u8 {
        self.bits
    }

    /// Derives the constants of the depth `bits`.
    pub(crate) fn new(bits: u8) -> (out: Self)
        requires
            valid_bits(bits),
        ensures
            out.bits() == bits,
    {
        let shift: u8 = 8 - bits;
        let step: u8 = 1u8 << shift;
        let wide: u16 = 1u16 << bits;
        assert(step == 128 && wide == 2 && bits == 1 || step == 64 && wide == 4 && bits == 2
            || step == 32 && wide == 8 && bits == 3 || step == 16 && wide == 16 && bits == 4
            || step == 8 && wide == 32 && bits == 5 || step == 4 && wide == 64 && bits == 6
            || step == 2 && wide == 128 && bits == 7 || step == 1 && wide == 256 && bits == 8)
            by (bit_vector)
            requires
                1 <= bits <= 8,
                shift == 8 - bits,
                step == 1u8 << shift,
                wide == 1u16 << bits,
        ;
        proof {
            lemma2_to64();
        }
        let count: u8 = (wide - 1) as u8;
        Brightness { bits, step, count }
    }

    /// The depth.
    pub(crate) fn depth(&self) -> (bits: u8)
        ensures
            bits == self.bits(),
            valid_bits(bits),
    {
        proof {
            use_type_invariant(self);
        }
        self.bits
    }

    /// The distance between neighbouring thresholds.
    pub(crate) fn step(&self) -> (step: u8)
        ensures
            step == step_for(self.bits()),
            valid_bits(self.bits()),
    {
        proof {
            use_type_invariant(self);
        }
        self.step
    }

    /// The number of sub-frames of one refresh.
    pub(crate) fn count(&self) -> (count: u8)
        ensures
            count == count_for(self.bits()),
            valid_bits(self.bits()),
    {
        proof {
            use_type_invariant(self);
        }
        self.count
    }
}

/// Computes the threshold of sub-frame `subframe` for the step `step`.
pub fn threshold(subframe: u8, step: u8) -> (level: u8)
    ensures
        level == threshold_for(subframe as int, step as int),
{
    assert((subframe + 1) * step <= 256 * 255) by (nonlinear_arith)
        requires
            0 <= subframe <= 255,
            0 <= step <= 255,
    ;
    let wide: u16 = (subframe as u16 + 1) * (step as u16);
    if wide > 255 {
        255
    } else {
        wide as u8
    }
}

} // verus!
