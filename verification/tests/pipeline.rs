use interstellar_triangulum::assets::{Asset, AssetStore};
use interstellar_triangulum::encoder::VideoEncoder;
use interstellar_triangulum::engine::{frame_file_name, RenderEngine};
use interstellar_triangulum::error::{ConfigFault, RenderError};
use interstellar_triangulum::frame_buffer::{FrameBuffer, PixelPatch};
use interstellar_triangulum::script::{
    Color, Effect, Layer, Metadata, Position, Resolution, Scene, SceneType, Transform,
    Transition, TransitionKind, VideoScript,
};
use interstellar_triangulum::timeline::Timeline;

fn mk_scene(duration_ms: u32, layers: Vec<Layer>) -> Scene {
    Scene {
        id: "scene".into(),
        duration_ms,
        scene_type: SceneType::Body,
        layers,
        transition: None,
    }
}

fn mk_script(resolution: &str, fps: u32, scenes: Vec<Scene>) -> VideoScript {
    VideoScript {
        metadata: Metadata {
            title: "Test".into(),
            resolution: Resolution::Named(resolution.into()),
            fps,
            duration_ms: 0,
            description: None,
            citations: vec![],
        },
        scenes,
        audio: None,
    }
}

fn solid_image(w: u32, h: u32, rgba: [u8; 4]) -> PixelPatch {
    let mut data = Vec::new();
    for _ in 0..(w * h) {
        data.extend_from_slice(&rgba);
    }
    PixelPatch::new(w, h, data).unwrap()
}

fn image_layer(source: &str, effects: Vec<Effect>) -> Layer {
    Layer::Image {
        source: source.into(),
        position: Position { x: 0, y: 0 },
        transform: Transform::default(),
        effects,
    }
}

#[test]
fn test_cumulative_rounding_three_scenes() {
    // Three scenes of 1.0 s at 3 fps: exactly 9 frames, whatever the
    // rounding path.
    let scenes = vec![
        mk_scene(1000, vec![]),
        mk_scene(1000, vec![]),
        mk_scene(1000, vec![]),
    ];
    let tl = Timeline::build(&scenes, 3).unwrap();
    assert_eq!(tl.total_frames(), 9);
}

#[test]
fn test_cumulative_rounding_no_drift() {
    // 333 ms per scene at 3 fps is 0.999 frames per scene: per-scene
    // rounding would give 3 frames, the cumulative rule keeps the
    // total at round(2.997) == 3 only via the running total.
    let scenes = vec![
        mk_scene(333, vec![]),
        mk_scene(333, vec![]),
        mk_scene(333, vec![]),
    ];
    let tl = Timeline::build(&scenes, 3).unwrap();
    assert_eq!(tl.total_frames(), 3);
    // Boundaries follow the running total: 0.999 -> 1, 1.998 -> 2.
    assert_eq!(tl.resolve(0).unwrap().scene_index, 0);
    assert_eq!(tl.resolve(1).unwrap().scene_index, 1);
    assert_eq!(tl.resolve(2).unwrap().scene_index, 2);
}

#[test]
fn test_resolve_out_of_range() {
    let scenes = vec![mk_scene(1000, vec![])];
    let tl = Timeline::build(&scenes, 3).unwrap();
    assert_eq!(tl.total_frames(), 3);
    assert_eq!(
        tl.resolve(3),
        Err(RenderError::OutOfRange { frame_index: 3, total_frames: 3 })
    );
    assert_eq!(
        tl.resolve(100),
        Err(RenderError::OutOfRange { frame_index: 100, total_frames: 3 })
    );
    assert!(tl.resolve(2).is_ok());
}

#[test]
fn test_transition_blend_linear() {
    // Scene A (2 s) crossfades into scene B (2 s) over 1 s at 4 fps:
    // the window is the last 4 frames of scene A, blend numerators
    // 0, 1, 2, 3 over denominator 4.
    let mut a = mk_scene(2000, vec![]);
    a.transition = Some(Transition { kind: TransitionKind::Crossfade, duration_ms: 1000 });
    let b = mk_scene(2000, vec![]);
    let tl = Timeline::build(&vec![a, b], 4).unwrap();
    assert_eq!(tl.total_frames(), 16);
    for i in 0..4u64 {
        let ctx = tl.resolve(4 + i).unwrap();
        let tw = ctx.transition.expect("inside the window");
        assert_eq!(tw.from_scene, 0);
        assert_eq!(tw.to_scene, 1);
        assert_eq!(tw.pos, i); // factor i/4: 0 first, rising by 1/4
        assert_eq!(tw.len, 4);
    }
    // Outside the window: steady-state frames of either scene.
    assert!(tl.resolve(3).unwrap().transition.is_none());
    assert!(tl.resolve(8).unwrap().transition.is_none());
}

#[test]
fn test_transition_takes_precedence() {
    // The last frame of scene A lies in the window, not in steady
    // state: transition frames win the tie.
    let mut a = mk_scene(1000, vec![]);
    a.transition = Some(Transition { kind: TransitionKind::Crossfade, duration_ms: 500 });
    let b = mk_scene(1000, vec![]);
    let tl = Timeline::build(&vec![a, b], 2).unwrap();
    let last_of_a = tl.resolve(1).unwrap();
    assert_eq!(last_of_a.scene_index, 0);
    let tw = last_of_a.transition.expect("last frame of A starts the window");
    assert_eq!(tw.pos, 0);
    assert_eq!(tw.len, 1);
}

#[test]
fn test_end_to_end_red_frames() {
    // 4x4 named resolution, 2 fps, one 1.0 s scene with a full-frame
    // opaque red image: exactly 2 frames, each an all-red PPM.
    let script = mk_script("4x4", 2, vec![mk_scene(1000, vec![image_layer("red.png", vec![])])]);
    let mut store = AssetStore::new();
    store.insert("red.png".into(), Asset::Image(solid_image(4, 4, [255, 0, 0, 255])));
    let out = RenderEngine::render(&script, &store).unwrap();
    assert_eq!(out.report.total_frames, 2);
    assert_eq!(out.frames.len(), 2);
    let mut expected: Vec<u8> = b"P6\n4 4\n255\n".to_vec();
    for _ in 0..16 {
        expected.extend_from_slice(&[255, 0, 0]);
    }
    assert_eq!(out.frames[0], expected);
    assert_eq!(out.frames[1], expected);
    assert!(out.report.failures.is_empty());
}

#[test]
fn test_missing_asset_degrades_layer_only() {
    // One frame, one layer with a missing image: the frame still
    // renders (pure background) and the report lists exactly one
    // resolution error.
    let script =
        mk_script("4x4", 2, vec![mk_scene(500, vec![image_layer("missing.png", vec![])])]);
    let store = AssetStore::new();
    let out = RenderEngine::render(&script, &store).unwrap();
    assert_eq!(out.report.total_frames, 1);
    assert_eq!(out.frames.len(), 1);
    assert_eq!(out.report.failures.len(), 1);
    let f = &out.report.failures[0];
    assert_eq!(f.frame_index, 0);
    assert_eq!(f.scene_index, 0);
    assert_eq!(f.layer_index, 0);
    assert_eq!(f.source, "missing.png");
    let mut expected: Vec<u8> = b"P6\n4 4\n255\n".to_vec();
    expected.extend_from_slice(&[0u8; 48]);
    assert_eq!(out.frames[0], expected);
}

#[test]
fn test_empty_scene_renders_background() {
    let script = mk_script("2x2", 2, vec![mk_scene(1000, vec![])]);
    let store = AssetStore::new();
    let out = RenderEngine::render(&script, &store).unwrap();
    assert_eq!(out.frames.len(), 2);
    let mut expected: Vec<u8> = b"P6\n2 2\n255\n".to_vec();
    expected.extend_from_slice(&[0u8; 12]);
    for frame in &out.frames {
        assert_eq!(frame, &expected);
    }
}

#[test]
fn test_render_deterministic() {
    let mut a = mk_scene(1000, vec![image_layer("red.png", vec![])]);
    a.transition = Some(Transition { kind: TransitionKind::Crossfade, duration_ms: 500 });
    let b = mk_scene(1000, vec![image_layer("blue.png", vec![])]);
    let script = mk_script("4x4", 4, vec![a, b]);
    let mut store = AssetStore::new();
    store.insert("red.png".into(), Asset::Image(solid_image(4, 4, [255, 0, 0, 255])));
    store.insert("blue.png".into(), Asset::Image(solid_image(4, 4, [0, 0, 255, 200])));
    let out1 = RenderEngine::render(&script, &store).unwrap();
    let out2 = RenderEngine::render(&script, &store).unwrap();
    assert_eq!(out1.frames, out2.frames);
    assert_eq!(out1.report.total_frames, out2.report.total_frames);
}

#[test]
fn test_blend_semitransparent_over_black() {
    // Source-over with srcA = 128 over opaque black: each channel is
    // round((src * 128 + dst * 127) / 255).
    let mut fb = FrameBuffer::new(1, 1).unwrap();
    fb.clear(Color { r: 0, g: 0, b: 0, a: 255 });
    let patch = PixelPatch::new(1, 1, vec![255, 0, 0, 128]).unwrap();
    fb.blend_region(&patch, 0, 0, 255);
    let bytes = fb.serialize_ppm();
    let mut expected: Vec<u8> = b"P6\n1 1\n255\n".to_vec();
    expected.extend_from_slice(&[128, 0, 0]);
    assert_eq!(bytes, expected);
}

#[test]
fn test_opacity_effect_halves_alpha() {
    let script = mk_script(
        "1x1",
        2,
        vec![mk_scene(500, vec![image_layer("red.png", vec![Effect::Opacity { percent: 50 }])])],
    );
    let mut store = AssetStore::new();
    store.insert("red.png".into(), Asset::Image(solid_image(1, 1, [255, 0, 0, 255])));
    let out = RenderEngine::render(&script, &store).unwrap();
    let header = b"P6\n1 1\n255\n".len();
    // 50% of 255 rounds to 128; red blended at 128 over black is 128.
    assert_eq!(&out.frames[0][header..], &[128, 0, 0]);
}

#[test]
fn test_fade_in_effect_ramps() {
    let script = mk_script(
        "1x1",
        2,
        vec![mk_scene(
            1000,
            vec![image_layer("red.png", vec![Effect::FadeIn { duration_ms: 1000 }])],
        )],
    );
    let mut store = AssetStore::new();
    store.insert("red.png".into(), Asset::Image(solid_image(1, 1, [255, 0, 0, 255])));
    let out = RenderEngine::render(&script, &store).unwrap();
    assert_eq!(out.frames.len(), 2);
    let header = b"P6\n1 1\n255\n".len();
    // Frame 0: alpha 0/2 of the fade span; frame 1: round(255/2) = 128.
    assert_eq!(&out.frames[0][header..], &[0, 0, 0]);
    assert_eq!(&out.frames[1][header..], &[128, 0, 0]);
}

#[test]
fn test_zero_fps_rejected() {
    let script = mk_script("4x4", 0, vec![mk_scene(1000, vec![])]);
    let store = AssetStore::new();
    assert!(matches!(
        RenderEngine::render(&script, &store),
        Err(RenderError::Config(ConfigFault::ZeroFps))
    ));
}

#[test]
fn test_zero_duration_rejected() {
    let scenes = vec![mk_scene(1000, vec![]), mk_scene(0, vec![])];
    assert!(matches!(
        Timeline::build(&scenes, 30),
        Err(RenderError::Config(ConfigFault::ZeroDuration { scene_index: 1 }))
    ));
}

#[test]
fn test_transition_too_long_rejected() {
    let mut a = mk_scene(1000, vec![]);
    a.transition = Some(Transition { kind: TransitionKind::Crossfade, duration_ms: 2000 });
    let b = mk_scene(3000, vec![]);
    assert!(matches!(
        Timeline::build(&vec![a, b], 30),
        Err(RenderError::Config(ConfigFault::TransitionTooLong { scene_index: 0 }))
    ));
}

#[test]
fn test_script_too_long_rejected() {
    let mut scenes = Vec::new();
    for _ in 0..250 {
        scenes.push(mk_scene(u32::MAX, vec![]));
    }
    assert!(matches!(
        Timeline::build(&scenes, 30),
        Err(RenderError::Config(ConfigFault::ScriptTooLong))
    ));
}

#[test]
fn test_unknown_resolution_rejected() {
    let script = mk_script("fullscreen", 2, vec![mk_scene(1000, vec![])]);
    let store = AssetStore::new();
    assert!(matches!(
        RenderEngine::render(&script, &store),
        Err(RenderError::Config(ConfigFault::UnknownResolution))
    ));
}

#[test]
fn test_resolution_too_large_rejected() {
    let mut script = mk_script("4x4", 2, vec![mk_scene(1000, vec![])]);
    script.metadata.resolution = Resolution::Explicit { width: 100_000, height: 100_000 };
    let store = AssetStore::new();
    assert!(matches!(
        RenderEngine::render(&script, &store),
        Err(RenderError::Config(ConfigFault::ResolutionTooLarge))
    ));
}

#[test]
fn test_named_resolution_parses() {
    let script = mk_script("1920x1080", 30, vec![mk_scene(100, vec![])]);
    let store = AssetStore::new();
    let out = RenderEngine::render(&script, &store).unwrap();
    assert_eq!(out.report.total_frames, 3);
    assert!(out.frames[0].starts_with(b"P6\n1920 1080\n255\n"));
}

#[test]
fn test_frame_file_names() {
    assert_eq!(frame_file_name(0), "frame_0.ppm");
    assert_eq!(frame_file_name(42), "frame_42.ppm");
    assert_eq!(frame_file_name(1000), "frame_1000.ppm");
}

#[test]
fn test_encoder_command_args() {
    let args = VideoEncoder::command_args("frame_%d.ppm", "out.mp4", 30, 1920, 1080);
    assert_eq!(
        args,
        vec![
            "-framerate".to_string(),
            "30".to_string(),
            "-i".to_string(),
            "frame_%d.ppm".to_string(),
            "-s".to_string(),
            "1920x1080".to_string(),
            "out.mp4".to_string(),
        ]
    );
}

#[test]
fn test_pixel_patch_validation() {
    assert!(PixelPatch::new(2, 2, vec![0; 16]).is_some());
    assert!(PixelPatch::new(2, 2, vec![0; 15]).is_none());
    assert!(PixelPatch::new(2, 2, vec![0; 17]).is_none());
}
