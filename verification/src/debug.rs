//! Debug visualization modes for the scene renderer.

use vstd::prelude::*;

verus! {

/// Shading debug mode: selects which visualization the fragment shader produces.
#[derive(Debug, Clone, Copy, PartialEq, Eq, Structural)]
pub enum DebugMode {
    /// Standard PBR Cook-Torrance shading
    Pbr,
    /// Wireframe-only rendering (solid geometry drawn as edge lines)
    WireframeOnly,
    /// World-space normals mapped to RGB
    Normals,
    /// Linearized depth as grayscale
    Depth,
    /// UV coordinates as procedural checkerboard
    UvChecker,
    /// Albedo only, no lighting
    Unlit,
    /// Metallic (red) / Roughness (green)
    MetallicRoughness,
}

/// Position of a mode in the cycling order.
pub open spec fn mode_position(m: DebugMode) -> nat {
    match m {
        DebugMode::Pbr => 0,
        DebugMode::WireframeOnly => 1,
        DebugMode::Normals => 2,
        DebugMode::Depth => 3,
        DebugMode::UvChecker => 4,
        DebugMode::Unlit => 5,
        DebugMode::MetallicRoughness => 6,
    }
}

/// The mode at a position of the cycling order (positions taken modulo seven).
pub open spec fn mode_at(p: nat) -> DebugMode {
    let q = p % 7;
    if q == 0 {
        DebugMode::Pbr
    } else if q == 1 {
        DebugMode::WireframeOnly
    } else if q == 2 {
        DebugMode::Normals
    } else if q == 3 {
        DebugMode::Depth
    } else if q == 4 {
        DebugMode::UvChecker
    } else if q == 5 {
        DebugMode::Unlit
    } else {
        DebugMode::MetallicRoughness
    }
}

/// The shader-side value of a mode; wireframe shares the PBR shader value.
pub open spec fn shader_value(m: DebugMode) -> u32 {
    match m {
        DebugMode::Pbr => 0,
        DebugMode::WireframeOnly => 0,
        DebugMode::Normals => 1,
        DebugMode::Depth => 2,
        DebugMode::UvChecker => 3,
        DebugMode::Unlit => 4,
        DebugMode::MetallicRoughness => 5,
    }
}

/// The human-readable label of a mode.
pub open spec fn mode_label(m: DebugMode) -> Seq<char> {
    match m {
        DebugMode::Pbr => "PBR"@,
        DebugMode::WireframeOnly => "Wireframe"@,
        DebugMode::Normals => "Normals"@,
        DebugMode::Depth => "Depth"@,
        DebugMode::UvChecker => "UV Checker"@,
        DebugMode::Unlit => "Unlit"@,
        DebugMode::MetallicRoughness => "Metal/Rough"@,
    }
}

/// Applies `next` `k` times.
pub open spec fn advance(m: DebugMode, k: nat) -> DebugMode
    decreases k,
{
    if k == 0 {
        m
    } else {
        mode_at(mode_position(advance(m, (k - 1) as nat)) + 1)
    }
}

impl Default for DebugMode {
    /// The default mode is standard PBR shading.
    fn default() -> (m: DebugMode)
        ensures
            m == DebugMode::Pbr,
    {
        DebugMode::Pbr
    }
}

impl DebugMode {
    /// Cycle to the next debug mode.
    pub fn next(self) -> (r: DebugMode)
        ensures
            r == mode_at(mode_position(self) + 1),
    {
        match self {
            DebugMode::Pbr => DebugMode::WireframeOnly,
            DebugMode::WireframeOnly => DebugMode::Normals,
            DebugMode::Normals => DebugMode::Depth,
            DebugMode::Depth => DebugMode::UvChecker,
            DebugMode::UvChecker => DebugMode::Unlit,
            DebugMode::Unlit => DebugMode::MetallicRoughness,
            DebugMode::MetallicRoughness => DebugMode::Pbr,
        }
    }

    /// GPU-side mode value written into the material uniform debug_mode field.
    pub fn as_u32(self) -> (r: u32)
        ensures
            r == shader_value(self),
    {
        match self {
            DebugMode::Pbr => 0,
            DebugMode::WireframeOnly => 0,
            DebugMode::Normals => 1,
            DebugMode::Depth => 2,
            DebugMode::UvChecker => 3,
            DebugMode::Unlit => 4,
            DebugMode::MetallicRoughness => 5,
        }
    }

    /// Human-readable label for display.
    pub fn label(self) -> (r: &'static str)
        ensures
            r@ == mode_label(self),
    {
        match self {
            DebugMode::Pbr => "PBR",
            DebugMode::WireframeOnly => "Wireframe",
            DebugMode::Normals => "Normals",
            DebugMode::Depth => "Depth",
            DebugMode::UvChecker => "UV Checker",
            DebugMode::Unlit => "Unlit",
            DebugMode::MetallicRoughness => "Metal/Rough",
        }
    }
}

/// Position and mode correspond one to one.
pub proof fn lemma_position_roundtrip(m: DebugMode)
    ensures
        mode_at(mode_position(m)) == m,
        mode_position(m) < 7,
{
}

/// Cycling with `next` visits the modes in order: after `k` steps from a mode
/// the result is the mode `k` places further along, wrapping around.
pub proof fn lemma_advance_position(m: DebugMode, k: nat)
    ensures
        advance(m, k) == mode_at(mode_position(m) + k),
    decreases k,
{
    if k > 0 {
        lemma_advance_position(m, (k - 1) as nat);
        let p = mode_position(m) + (k - 1) as nat;
        assert(mode_position(mode_at(p)) == p % 7);
        assert((p % 7 + 1) % 7 == (p + 1) % 7);
    }
}

/// Seven presses of the cycle key return to the starting mode, and no fewer do.
pub proof fn law_cycle_period_seven(m: DebugMode)
    ensures
        advance(m, 7) == m,
        forall|k: nat| 0 < k < 7 ==> advance(m, k) != m,
{
    lemma_advance_position(m, 7);
    assert forall|k: nat| 0 < k < 7 implies advance(m, k) != m by {
        lemma_advance_position(m, k);
    }
}

/// Every mode but wireframe has its own shader value; wireframe reuses the PBR one.
pub proof fn law_shader_values(a: DebugMode, b: DebugMode)
    ensures
        shader_value(a) < 6,
        (shader_value(a) == shader_value(b)) <==> (a == b || (mode_position(a) < 2
            && mode_position(b) < 2)),
{
}

} // verus!
