//! Camera operating modes.

use vstd::prelude::*;

verus! {

/// Camera operating mode.
#[derive(Debug, Clone, Copy, PartialEq, Eq, Structural)]
pub enum CameraMode {
    /// Orbit around a target point (default for scene viewer)
    Orbit,
    /// First-person view at a position looking in yaw/pitch direction
    FirstPerson,
}

impl Default for CameraMode {
    /// Cameras start in orbit mode.
    fn default() -> (m: CameraMode)
        ensures
            m == CameraMode::Orbit,
    {
        CameraMode::Orbit
    }
}

} // verus!
