//! Colours, as the level and the output surface exchange them.

use vstd::prelude::*;

verus! {

/// A colour of eight bits per channel.
#[derive(Debug, Clone, Copy, PartialEq, Eq, Structural)]
pub struct RGB {
    pub r: u8,
    pub g: u8,
    pub b: u8,
}

impl RGB {
    pub fn from(r: u8, g: u8, b: u8) -> (c: RGB)
        ensures
            c == (RGB { r, g, b }),
    {
        RGB { r, g, b }
    }
}

/// Walls that are not drawn.
pub open spec fn spec_black() -> RGB {
    RGB { r: 0, g: 0, b: 0 }
}

#[verifier::when_used_as_spec(spec_black)]
pub fn black() -> (c: RGB)
    ensures
        c == spec_black(),
{
    RGB { r: 0, g: 0, b: 0 }
}

/// One-sided walls that block.
pub open spec fn spec_red() -> RGB {
    RGB { r: 160, g: 0, b: 0 }
}

#[verifier::when_used_as_spec(spec_red)]
pub fn red() -> (c: RGB)
    ensures
        c == spec_red(),
{
    RGB { r: 160, g: 0, b: 0 }
}

/// Secret walls.
pub open spec fn spec_green() -> RGB {
    RGB { r: 0, g: 160, b: 0 }
}

#[verifier::when_used_as_spec(spec_green)]
pub fn green() -> (c: RGB)
    ensures
        c == spec_green(),
{
    RGB { r: 0, g: 160, b: 0 }
}

/// Walls that act when used or crossed.
pub open spec fn spec_blue() -> RGB {
    RGB { r: 0, g: 0, b: 160 }
}

#[verifier::when_used_as_spec(spec_blue)]
pub fn blue() -> (c: RGB)
    ensures
        c == spec_blue(),
{
    RGB { r: 0, g: 0, b: 160 }
}

/// Walls known from a computer map only.
pub open spec fn spec_cyan() -> RGB {
    RGB { r: 0, g: 160, b: 160 }
}

#[verifier::when_used_as_spec(spec_cyan)]
pub fn cyan() -> (c: RGB)
    ensures
        c == spec_cyan(),
{
    RGB { r: 0, g: 160, b: 160 }
}

/// A change of ceiling height.
pub open spec fn spec_yellow() -> RGB {
    RGB { r: 160, g: 160, b: 0 }
}

#[verifier::when_used_as_spec(spec_yellow)]
pub fn yellow() -> (c: RGB)
    ensures
        c == spec_yellow(),
{
    RGB { r: 160, g: 160, b: 0 }
}

/// A change of floor height.
pub open spec fn spec_choco() -> RGB {
    RGB { r: 192, g: 128, b: 64 }
}

#[verifier::when_used_as_spec(spec_choco)]
pub fn choco() -> (c: RGB)
    ensures
        c == spec_choco(),
{
    RGB { r: 192, g: 128, b: 64 }
}

/// Walls that fit no other rule.
pub open spec fn spec_pink() -> RGB {
    RGB { r: 255, g: 0, b: 255 }
}

#[verifier::when_used_as_spec(spec_pink)]
pub fn pink() -> (c: RGB)
    ensures
        c == spec_pink(),
{
    RGB { r: 255, g: 0, b: 255 }
}

} // verus!
