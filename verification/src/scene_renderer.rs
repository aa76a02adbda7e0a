//! Scene-renderer configuration and render-pass phases.

use vstd::prelude::*;

verus! {

/// Renderer construction options.
pub struct RendererConfig {
    /// Show the ground-plane grid (useful for debug/inspection modes)
    pub show_grid: bool,
}

impl Default for RendererConfig {
    /// The grid is hidden by default.
    fn default() -> (c: RendererConfig)
        ensures
            !c.show_grid,
    {
        RendererConfig { show_grid: false }
    }
}

/// Which part of the main pass a render call covers. With an ocean present the
/// pass is split around the ocean: opaque geometry first, the ocean and
/// everything after it second.
#[derive(Debug, Clone, Copy, PartialEq, Eq, Structural)]
pub enum RenderPhase {
    All,
    PreOcean,
    PostOcean,
}

/// Whether a phase draws the opaque geometry.
pub open spec fn phase_draws_opaque(p: RenderPhase) -> bool {
    p != RenderPhase::PostOcean
}

/// Whether a phase draws the ocean and what follows it.
pub open spec fn phase_draws_ocean_and_after(p: RenderPhase) -> bool {
    p != RenderPhase::PreOcean
}

impl RenderPhase {
    /// Whether this phase draws the opaque geometry (sky, terrain, entities).
    pub fn draws_opaque(self) -> (r: bool)
        ensures
            r == phase_draws_opaque(self),
    {
        self != RenderPhase::PostOcean
    }

    /// Whether this phase draws the ocean and what follows it.
    pub fn draws_ocean_and_after(self) -> (r: bool)
        ensures
            r == phase_draws_ocean_and_after(self),
    {
        self != RenderPhase::PreOcean
    }
}

/// Every phase draws something; only the full pass draws both parts, so the
/// two split phases together draw each part exactly once.
pub proof fn law_phases_partition(p: RenderPhase)
    ensures
        phase_draws_opaque(p) || phase_draws_ocean_and_after(p),
        (phase_draws_opaque(p) && phase_draws_ocean_and_after(p)) <==> p == RenderPhase::All,
{
}

} // verus!
