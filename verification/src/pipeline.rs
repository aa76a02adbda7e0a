//! Blend modes of the transparent-geometry pipelines.

use vstd::prelude::*;
use crate::text::str_equal;

verus! {

/// How a transparent draw is blended into the frame.
#[derive(Debug, Clone, Copy, PartialEq, Eq, Structural)]
pub enum BlendMode {
    /// Standard alpha blending
    Alpha,
    /// Additive blending
    Additive,
    /// Multiplicative blending
    Multiply,
}

/// The blend mode a TOML `blend_mode` string names: `"additive"` and
/// `"multiply"` select those modes, anything else selects alpha blending.
pub open spec fn blend_mode_named(s: Seq<char>) -> BlendMode {
    if s == "additive"@ {
        BlendMode::Additive
    } else if s == "multiply"@ {
        BlendMode::Multiply
    } else {
        BlendMode::Alpha
    }
}

/// Parse a blend mode string from TOML into the [`BlendMode`] enum.
pub fn parse_blend_mode(s: &str) -> (m: BlendMode)
    ensures
        m == blend_mode_named(s@),
{
    if str_equal(s, "additive") {
        BlendMode::Additive
    } else if str_equal(s, "multiply") {
        BlendMode::Multiply
    } else {
        BlendMode::Alpha
    }
}

} // verus!
