//! Errors raised while setting up or using a render context.

use vstd::prelude::*;

verus! {

/// Failures of the render context.
#[derive(Debug)]
pub enum RenderError {
    SurfaceCreation(String),
    AdapterNotFound,
    DeviceCreation(String),
    SurfaceError(String),
    BufferReadFailed(String),
}

/// The display text of an error.
pub open spec fn error_text(e: RenderError) -> Seq<char> {
    match e {
        RenderError::SurfaceCreation(s) => "Failed to create surface: "@ + s@,
        RenderError::AdapterNotFound => "Failed to get adapter"@,
        RenderError::DeviceCreation(s) => "Failed to create device: "@ + s@,
        RenderError::SurfaceError(s) => "Surface error: "@ + s@,
        RenderError::BufferReadFailed(s) => "Failed to read render buffer: "@ + s@,
    }
}

fn prefixed(prefix: &str, detail: &String) -> (r: String)
    ensures
        r@ == prefix@ + detail@,
{
    let mut r = String::from_str(prefix);
    r.append(detail.as_str());
    r
}

impl RenderError {
    /// The message shown for this error.
    pub fn message(&self) -> (m: String)
        ensures
            m@ == error_text(*self),
    {
        match self {
            RenderError::SurfaceCreation(s) => prefixed("Failed to create surface: ", s),
            RenderError::AdapterNotFound => String::from_str("Failed to get adapter"),
            RenderError::DeviceCreation(s) => prefixed("Failed to create device: ", s),
            RenderError::SurfaceError(s) => prefixed("Surface error: ", s),
            RenderError::BufferReadFailed(s) => prefixed("Failed to read render buffer: ", s),
        }
    }
}

} // verus!
