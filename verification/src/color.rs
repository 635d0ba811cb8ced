//! Color policies: pure functions from a node's relative share to a color.

use vstd::prelude::*;

verus! {

/// A terminal color held as plain values: the default white, or one exact
/// 24-bit color.
#[derive(Copy, Clone, Debug, PartialEq, Eq)]
pub enum TermColor {
    White,
    TrueColor { r: u8, g: u8, b: u8 },
}

/// How a rendered line is colorized from its relative share.
#[derive(Copy, Clone, Debug)]
pub enum Colorizer {
    Hellscape,
    Gradient,
    Monochrome,
    NoColor,
}

/// The scaled channel increment for a share of `num / den`:
/// the integer part of 155 times the share.
pub open spec fn channel_scaled(num: nat, den: nat) -> nat
    recommends
        den > 0,
{
    155 * num / den
}

/// The color each policy gives for a share of `num / den`: "Hellscape"
/// raises red alone, "Gradient" raises red while lowering green,
/// "Monochrome" raises all three channels together, and no coloring
/// leaves the line white. Every channel stays within its eight bits.
pub open spec fn colorize_spec(c: Colorizer, num: nat, den: nat) -> TermColor
    recommends
        den > 0,
        num <= den,
{
    let ch = channel_scaled(num, den);
    match c {
        Colorizer::Hellscape => TermColor::TrueColor {
            r: (100 + ch) as u8,
            g: 100u8,
            b: 100u8,
        },
        Colorizer::Gradient => TermColor::TrueColor {
            r: (100 + ch) as u8,
            g: (200 - ch) as u8,
            b: 100u8,
        },
        Colorizer::Monochrome => TermColor::TrueColor {
            r: (100 + ch) as u8,
            g: (100 + ch) as u8,
            b: (100 + ch) as u8,
        },
        Colorizer::NoColor => TermColor::White,
    }
}

/// The integer part of 155 times `num / den`, at most 155 for a share
/// within one.
fn scaled_channel(num: usize, den: usize) -> (r: u8)
    requires
        den > 0,
        num <= den,
    ensures
        r == channel_scaled(num as nat, den as nat),
        r <= 155,
{
    let v: u128 = 155u128 * (num as u128) / (den as u128);
    proof {
        assert(155 * (num as int) / (den as int) <= 155) by (nonlinear_arith)
            requires
                den > 0,
                0 <= num <= den,
        ;
    }
    v as u8
}

impl Colorizer {
    /// The color this policy gives a node whose weight is `num` out of a
    /// total of `den`.
    pub fn colorize(&self, num: usize, den: usize) -> (r: TermColor)
        requires
            den > 0,
            num <= den,
        ensures
            r == colorize_spec(*self, num as nat, den as nat),
    {
        match self {
            Colorizer::Hellscape => {
                let rel_b = scaled_channel(num, den);
                TermColor::TrueColor { r: 100 + rel_b, g: 100, b: 100 }
            },
            Colorizer::Gradient => {
                let rel_b = scaled_channel(num, den);
                TermColor::TrueColor { r: 100 + rel_b, g: 200 - rel_b, b: 100 }
            },
            Colorizer::Monochrome => {
                let rel_b = scaled_channel(num, den);
                TermColor::TrueColor { r: 100 + rel_b, g: 100 + rel_b, b: 100 + rel_b }
            },
            Colorizer::NoColor => TermColor::White,
        }
    }
}

} // verus!
