//! 8-bit colours and the quantisation rule that produces them.
use vstd::prelude::*;

verus! {

/// A 24-bit colour, one byte per channel.
#[derive(Clone, Copy, Debug, PartialEq, Eq, Structural)]
pub struct Rgb {
    pub r: u8,
    pub g: u8,
    pub b: u8,
}

/// The byte a channel maps to once its intensity has been scaled and
/// truncated to an integer: negative values give 0, values of 255 and above
/// give 255, and every value in between is kept.
pub open spec fn clamp_spec(scaled: int) -> int {
    if scaled < 0 {
        0
    } else if scaled >= 255 {
        255
    } else {
        scaled
    }
}

/// Quantises one scaled channel intensity to a byte.
pub fn clamp_channel(scaled: i64) -> (r: u8)
    ensures
        r as int == clamp_spec(scaled as int),
{
    if scaled < 0 {
        0
    } else if scaled >= 255 {
        255
    } else {
        scaled as u8
    }
}

impl Rgb {
    /// The colour every channel of which is zero.
    pub open spec fn black_spec() -> Rgb {
        Rgb { r: 0, g: 0, b: 0 }
    }

    /// Black, the colour of a cell that has received no sample.
    pub fn black() -> (c: Rgb)
        ensures
            c == Rgb::black_spec(),
    {
        Rgb { r: 0, g: 0, b: 0 }
    }

    /// The colour of three scaled channel intensities, each quantised by
    /// [`clamp_channel`].
    pub fn from_scaled(r: i64, g: i64, b: i64) -> (c: Rgb)
        ensures
            c.r as int == clamp_spec(r as int),
            c.g as int == clamp_spec(g as int),
            c.b as int == clamp_spec(b as int),
    {
        Rgb { r: clamp_channel(r), g: clamp_channel(g), b: clamp_channel(b) }
    }
}

/// Quantisation never decreases when the intensity increases.
pub proof fn lemma_clamp_monotone(a: int, b: int)
    requires
        a <= b,
    ensures
        clamp_spec(a) <= clamp_spec(b),
{
}

} // verus!
