//! Error taxonomy of the rendering pipeline.
//!
//! Configuration problems abort a render before any frame work; a frame
//! index outside the plan is a caller error; an unresolvable layer asset
//! only degrades that layer and is reported, never raised.

use vstd::prelude::*;

verus! {

/// A reason the script's configuration is rejected before any frame work.
#[derive(Debug, Clone, Copy, PartialEq, Eq, Structural)]
pub enum ConfigFault {
    /// The frame rate is zero.
    ZeroFps,
    /// A scene's duration is zero milliseconds.
    ZeroDuration { scene_index: usize },
    /// A transition lasts longer than one of the two scenes it joins.
    TransitionTooLong { scene_index: usize },
    /// The summed scene durations exceed the supported total length.
    ScriptTooLong,
    /// A named resolution does not follow the `<width>x<height>` form.
    UnknownResolution,
    /// The resolved width and height describe a raster over the pixel cap.
    ResolutionTooLarge,
}

/// A fatal failure of the pipeline, as handed to the caller of a render.
#[derive(Debug, Clone, Copy, PartialEq, Eq, Structural)]
pub enum RenderError {
    /// Invalid frame rate, duration, transition or resolution.
    Config(ConfigFault),
    /// The timeline was asked about a frame index outside `0 .. total_frames`.
    OutOfRange { frame_index: u64, total_frames: u64 },
    /// A frame file could not be written; raised by the I/O shell around
    /// the library, never by the library itself.
    Io,
    /// The external encoding process is absent; raised by the shell when
    /// probing for it, never by the library itself.
    EncoderUnavailable,
}

/// A non-fatal, per-layer failure: the layer's source could not be
/// resolved to usable content, so the layer contributed nothing to the
/// frame named here.
#[derive(Debug, Clone, PartialEq, Eq)]
pub struct AssetResolutionError {
    pub frame_index: u64,
    pub scene_index: usize,
    pub layer_index: usize,
    /// The source reference (asset path, or font name for a text layer)
    /// that failed to resolve.
    pub source: String,
}

} // verus!
