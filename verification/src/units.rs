//! The two weighting units and their human-readable magnitude text.

use vstd::prelude::*;

verus! {

/// Which aggregate metric drives percentages, bar lengths and the magnitude
/// field: byte weight, or structural (child-count) weight.
#[derive(Copy, Clone, Debug)]
pub enum Unit {
    Bytes,
    Children,
}

/// The text that the human-readable formatter gives for `x` under binary
/// scales with the suffix "B"; a function of `x` alone.
pub uninterp spec fn human_bytes(x: nat) -> Seq<char>;

/// The text that the human-readable formatter gives for `x` under SI scales,
/// without a suffix; a function of `x` alone.
pub uninterp spec fn human_si(x: nat) -> Seq<char>;

/// Relies on human_format::Formatter::format, configured with binary scales
/// and the unit text "B": the result depends on the value alone.
#[verifier::external_body]
fn format_binary(x: usize) -> (r: String)
    ensures
        r@ == human_bytes(x as nat),
{
    human_format::Formatter::new()
        .with_scales(human_format::Scales::Binary())
        .with_units("B")
        .format(x as _)
}

/// Relies on human_format::Formatter::format, configured with SI scales:
/// the result depends on the value alone.
#[verifier::external_body]
fn format_si(x: usize) -> (r: String)
    ensures
        r@ == human_si(x as nat),
{
    human_format::Formatter::new().with_scales(human_format::Scales::SI()).format(x as _)
}

impl Unit {
    /// The formatted magnitude of `x` under this unit.
    pub fn format(&self, x: usize) -> (r: String)
        ensures
            r@ == match *self {
                Unit::Bytes => human_bytes(x as nat),
                Unit::Children => human_si(x as nat),
            },
    {
        match self {
            Unit::Bytes => format_binary(x),
            Unit::Children => format_si(x),
        }
    }
}

} // verus!
