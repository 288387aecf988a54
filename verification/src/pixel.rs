//! Four-channel pixels and their componentwise lattice.

use vstd::prelude::*;

verus! {

/// An RGBA pixel: red, green, blue and alpha, one byte each.
#[derive(Clone, Copy, Debug, PartialEq, Eq, Structural)]
pub struct Pixel(pub u8, pub u8, pub u8, pub u8);

/// Fully opaque white, as a specification value.
pub open spec fn spec_white() -> Pixel {
    Pixel(255, 255, 255, 255)
}

/// Fully opaque black, as a specification value.
pub open spec fn spec_black() -> Pixel {
    Pixel(0, 0, 0, 255)
}

/// Fully opaque white.
#[verifier::when_used_as_spec(spec_white)]
pub fn white() -> (p: Pixel)
    ensures
        p == spec_white(),
{
    Pixel(255, 255, 255, 255)
}

/// Fully opaque black.
#[verifier::when_used_as_spec(spec_black)]
pub fn black() -> (p: Pixel)
    ensures
        p == spec_black(),
{
    Pixel(0, 0, 0, 255)
}

/// The smaller of two bytes.
pub open spec fn lower(a: u8, b: u8) -> u8 {
    if a <= b { a } else { b }
}

/// The larger of two bytes.
pub open spec fn upper(a: u8, b: u8) -> u8 {
    if a >= b { a } else { b }
}

fn lower_of(a: u8, b: u8) -> (r: u8)
    ensures
        r == lower(a, b),
{
    if a <= b { a } else { b }
}

fn upper_of(a: u8, b: u8) -> (r: u8)
    ensures
        r == upper(a, b),
{
    if a >= b { a } else { b }
}

impl Pixel {
    /// Channel `c`, counting red as 0, green as 1, blue as 2 and alpha as 3.
    pub open spec fn channel(self, c: int) -> u8 {
        if c == 0 {
            self.0
        } else if c == 1 {
            self.1
        } else if c == 2 {
            self.2
        } else {
            self.3
        }
    }

    /// Componentwise minimum.
    pub open spec fn meet(self, other: Pixel) -> Pixel {
        Pixel(lower(self.0, other.0), lower(self.1, other.1), lower(self.2, other.2), lower(self.3, other.3))
    }

    /// Componentwise maximum.
    pub open spec fn join(self, other: Pixel) -> Pixel {
        Pixel(upper(self.0, other.0), upper(self.1, other.1), upper(self.2, other.2), upper(self.3, other.3))
    }

    /// The componentwise minimum of `self` and `other`.
    pub fn min(&self, other: Pixel) -> (r: Pixel)
        ensures
            r == self.meet(other),
    {
        Pixel(
            lower_of(self.0, other.0),
            lower_of(self.1, other.1),
            lower_of(self.2, other.2),
            lower_of(self.3, other.3),
        )
    }

    /// The componentwise maximum of `self` and `other`.
    pub fn max(&self, other: Pixel) -> (r: Pixel)
        ensures
            r == self.join(other),
    {
        Pixel(
            upper_of(self.0, other.0),
            upper_of(self.1, other.1),
            upper_of(self.2, other.2),
            upper_of(self.3, other.3),
        )
    }
}

} // verus!
