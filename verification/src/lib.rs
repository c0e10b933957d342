//! The decisions of a renderer that draws text from cached glyphs on a GPU: which glyphs of a text
//! area are drawn, where and how much of each, when a glyph is rasterized, where its image goes,
//! and how the vertices reach the GPU. What has to be done outside is named step by step, and
//! what came of it is taken back: see [`prepare::Step`].
//!
//! Numbers that are not whole are held by the bits of their single-precision form.

pub mod atlas;
pub mod buffer;
pub mod bytes;
pub mod choices;
pub mod depth;
pub mod geometry;
pub mod image;
pub mod layout;
pub mod metadata;
pub mod prepare;
pub mod repeat;
pub mod run;
pub mod text_render;
pub mod transform;
pub mod viewport;

pub use prepare::{PrepareError, Preparation, Step};
pub use text_render::TextRenderer;
pub use viewport::{CameraUniform, Viewport};
