//! The immutable in-memory script model: metadata, scenes, layers,
//! effects and transitions.
//!
//! All times are integer milliseconds, so that every quantity the
//! pipeline computes from them is exact and reproducible bit for bit.

use vstd::prelude::*;

verus! {

/// An RGBA color, 8 bits per channel.
#[derive(Debug, Clone, Copy, PartialEq, Eq, Structural)]
pub struct Color {
    pub r: u8,
    pub g: u8,
    pub b: u8,
    pub a: u8,
}

/// A 2-D position in pixels; negative coordinates place content
/// partly or wholly off the raster and are clipped at blend time.
#[derive(Debug, Clone, Copy, PartialEq, Eq, Structural)]
pub struct Position {
    pub x: i32,
    pub y: i32,
}

/// The extra placement an image layer carries: a pixel offset added
/// to the layer's position.
#[derive(Debug, Clone, Copy, PartialEq, Eq, Structural)]
pub struct Transform {
    pub dx: i32,
    pub dy: i32,
}

impl Default for Transform {
    /// The identity transform: no offset.
    fn default() -> (r: Transform)
        ensures
            r.dx == 0 && r.dy == 0,
    {
        Transform { dx: 0, dy: 0 }
    }
}

/// The output raster size: either an explicit pair, or a name of the
/// form `<width>x<height>` resolved when the render starts.
#[derive(Debug, Clone, PartialEq, Eq)]
pub enum Resolution {
    Named(String),
    Explicit { width: u32, height: u32 },
}

/// Script-level metadata. `fps` must be positive; `duration_ms` is the
/// author's nominal length and does not drive the frame plan.
#[derive(Debug, Clone)]
pub struct Metadata {
    pub title: String,
    pub resolution: Resolution,
    pub fps: u32,
    pub duration_ms: u64,
    pub description: Option<String>,
    pub citations: Vec<String>,
}

/// The role a scene plays in the narrative; read by script analyzers
/// only and irrelevant to rendering.
#[derive(Debug, Clone, Copy, PartialEq, Eq, Structural)]
pub enum SceneType {
    Opening,
    Body,
    Closing,
}

/// A time-local modifier of a layer's contribution, applied in declared
/// order before the layer is blended into the frame. Each effect scales
/// the layer's alpha; none moves or resizes content.
#[derive(Debug, Clone, Copy, PartialEq, Eq, Structural)]
pub enum Effect {
    /// Alpha ramps linearly from 0 at the start of the local time span
    /// to full once `duration_ms` has elapsed.
    FadeIn { duration_ms: u32 },
    /// Alpha ramps linearly down to 0 at the end of the local time span,
    /// starting `duration_ms` before it.
    FadeOut { duration_ms: u32 },
    /// A constant opacity in percent; values above 100 are treated as 100.
    Opacity { percent: u8 },
}

/// One visual element of a scene. Paint order is the element's position
/// in the scene's layer sequence: first painted first (bottom).
#[derive(Debug, Clone)]
pub enum Layer {
    Text {
        content: String,
        font: String,
        font_size: u32,
        color: Color,
        position: Position,
        effects: Vec<Effect>,
    },
    Image {
        source: String,
        position: Position,
        transform: Transform,
        effects: Vec<Effect>,
    },
    Video {
        source: String,
        position: Position,
        /// Offset into the clip, in milliseconds, at which playback
        /// starts when the scene starts.
        playback_offset_ms: u32,
        effects: Vec<Effect>,
    },
}

impl Layer {
    /// The source reference the layer needs resolved: the asset path of
    /// an image or video, the font name of a text layer.
    pub open spec fn spec_source(&self) -> Seq<char> {
        match self {
            Layer::Text { font, .. } => font@,
            Layer::Image { source, .. } => source@,
            Layer::Video { source, .. } => source@,
        }
    }

    /// The effect list of the layer.
    pub open spec fn spec_effects(&self) -> Seq<Effect> {
        match self {
            Layer::Text { effects, .. } => effects@,
            Layer::Image { effects, .. } => effects@,
            Layer::Video { effects, .. } => effects@,
        }
    }
}

/// How one scene hands over to the next.
#[derive(Debug, Clone, Copy, PartialEq, Eq, Structural)]
pub enum TransitionKind {
    /// The incoming scene is alpha-blended over the outgoing one at a
    /// factor rising linearly across the transition's frame span.
    Crossfade,
}

/// A time-bounded blend out of the scene that carries it, into the next
/// scene. Its duration must not exceed the shorter of the two scenes.
#[derive(Debug, Clone, Copy, PartialEq, Eq, Structural)]
pub struct Transition {
    pub kind: TransitionKind,
    pub duration_ms: u32,
}

/// A timed segment of the script: an ordered bottom-to-top stack of
/// layers shown for `duration_ms`, with an optional transition into the
/// following scene. A transition on the final scene has no following
/// scene and is ignored by the frame plan.
#[derive(Debug, Clone)]
pub struct Scene {
    pub id: String,
    pub duration_ms: u32,
    pub scene_type: SceneType,
    pub layers: Vec<Layer>,
    pub transition: Option<Transition>,
}

/// A parsed script: immutable once built, shared read-only by every
/// frame computation of a render.
#[derive(Debug, Clone)]
pub struct VideoScript {
    pub metadata: Metadata,
    pub scenes: Vec<Scene>,
    /// An opaque reference to an audio track, carried through untouched.
    pub audio: Option<String>,
}

} // verus!
