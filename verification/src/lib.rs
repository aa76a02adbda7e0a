//! Rendering support logic for Flint scenes: debug visualisation modes,
//! texture-atlas and bitmap-font lookup, wireframe edge extraction, sprite
//! batching, frame statistics and their display, GPU adapter-name selection,
//! asset path candidates, buffer growth and readback layout, and the input
//! state of the orbit camera.

mod text;

pub mod atlas;
pub mod bitmap_font;
pub mod camera;
pub mod context;
pub mod debug;
pub mod gpu_select;
pub mod headless;
pub mod lights;
pub mod model_loader;
pub mod orbit_controller;
pub mod particle_pipeline;
pub mod pipeline;
pub mod primitives;
pub mod render_stats;
pub mod scene_renderer;
pub mod sprite_batch;
pub mod toml_doc;

pub use atlas::{AtlasRegistry, TextureAtlas};
pub use camera::CameraMode;
pub use context::RenderError;
pub use debug::DebugMode;
pub use pipeline::{parse_blend_mode, BlendMode};
pub use primitives::triangles_to_wireframe_indices;
pub use render_stats::format_count;
pub use scene_renderer::{RenderPhase, RendererConfig};
