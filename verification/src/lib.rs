//! A deterministic video rendering core: it maps a declarative script of
//! timed, layered scenes to a discrete frame-index space, composites each
//! frame's layers (including cross-scene transitions) into a pixel buffer,
//! and serializes every frame as a binary PPM image, ready for an external
//! encoding process.
//!
//! Parsing a serialized script, decoding assets, file output and the
//! encoder invocation itself are collaborators around this crate; the
//! library works on plain, already-decoded values and proves what every
//! frame holds.

pub mod assets;
pub mod compositor;
pub mod config;
pub mod credibility;
pub mod digits;
pub mod encoder;
pub mod engine;
pub mod error;
pub mod frame_buffer;
pub mod rounding;
pub mod script;
pub mod timeline;

pub use assets::{Asset, AssetStore};
pub use compositor::Compositor;
pub use config::AppConfig;
pub use credibility::CredibilityAnalyzer;
pub use encoder::VideoEncoder;
pub use engine::RenderEngine;
pub use error::{AssetResolutionError, ConfigFault, RenderError};
pub use frame_buffer::FrameBuffer;
pub use script::VideoScript;
pub use timeline::Timeline;
