//! The colour value type: three 8-bit channels, sRGB, no alpha.

use vstd::prelude::*;

verus! {

/// A three-channel, 8-bit-per-channel sRGB colour.
///
/// Colour representations that differ from this (alpha, palettes, wider
/// channels) are outside the scope of this crate.
#[derive(Debug, Clone, Copy, PartialEq, Eq, Structural)]
pub struct Colour {
    /// The red channel of the colour.
    pub r: u8,
    /// The green channel of the colour.
    pub g: u8,
    /// The blue channel of the colour.
    pub b: u8,
}

impl Colour {
    /// The colour black, as a specification value.
    pub open spec fn spec_black() -> Colour {
        Colour { r: 0, g: 0, b: 0 }
    }

    /// The colour white, as a specification value.
    pub open spec fn spec_white() -> Colour {
        Colour { r: 255, g: 255, b: 255 }
    }

    /// The colour black.
    #[verifier::when_used_as_spec(spec_black)]
    pub fn black() -> (c: Colour)
        ensures
            c == Colour::spec_black(),
    {
        Colour { r: 0, g: 0, b: 0 }
    }

    /// The colour white.
    #[verifier::when_used_as_spec(spec_white)]
    pub fn white() -> (c: Colour)
        ensures
            c == Colour::spec_white(),
    {
        Colour { r: 255, g: 255, b: 255 }
    }

    /// Creates a colour from a vector of exactly three channel bytes, in
    /// red, green, blue order.
    pub fn from_vec(v: Vec<u8>) -> (c: Self)
        requires
            v@.len() == 3,
        ensures
            c.r == v@[0],
            c.g == v@[1],
            c.b == v@[2],
    {
        Colour { r: v[0], g: v[1], b: v[2] }
    }

    /// Returns the three channel bytes of this colour as a vector, in red,
    /// green, blue order.
    pub fn to_vec(&self) -> (v: Vec<u8>)
        ensures
            v@.len() == 3,
            v@[0] == self.r,
            v@[1] == self.g,
            v@[2] == self.b,
    {
        let mut v: Vec<u8> = Vec::new();
        v.push(self.r);
        v.push(self.g);
        v.push(self.b);
        v
    }
}

impl Default for Colour {
    /// Returns black.
    fn default() -> (c: Self)
        ensures
            c == (Colour { r: 0, g: 0, b: 0 }),
    {
        Colour { r: 0, g: 0, b: 0 }
    }
}

} // verus!
