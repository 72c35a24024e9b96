use interstellar_triangulum::config::{AppConfig, ConfigSources};
use interstellar_triangulum::credibility::CredibilityAnalyzer;
use interstellar_triangulum::script::{
    Color, Layer, Metadata, Position, Resolution, Scene, SceneType, VideoScript,
};

fn create_test_script(citations: Vec<String>, text: &str) -> VideoScript {
    VideoScript {
        metadata: Metadata {
            title: "Test".into(),
            resolution: Resolution::Named("1920x1080".into()),
            fps: 30,
            duration_ms: 0,
            description: None,
            citations,
        },
        scenes: vec![Scene {
            id: "test".into(),
            duration_ms: 5000,
            scene_type: SceneType::Body,
            layers: vec![Layer::Text {
                content: text.into(),
                font: "font.ttf".into(),
                font_size: 24,
                color: Color { r: 0, g: 0, b: 0, a: 255 },
                position: Position { x: 0, y: 0 },
                effects: vec![],
            }],
            transition: None,
        }],
        audio: None,
    }
}

#[test]
fn test_claim_detection_stats() {
    let script = create_test_script(vec![], "Rust is 10x faster than Python");
    let report = CredibilityAnalyzer::analyze(&script);
    assert_eq!(report.claims.len(), 1);
    assert_eq!(report.claims[0].reason, "Contains statistics");
    assert!(!report.claims[0].verified); // No citations
    assert!(report.score < 100);
}

#[test]
fn test_claim_detection_superlative() {
    let script = create_test_script(vec![], "The best programming language");
    let report = CredibilityAnalyzer::analyze(&script);
    assert_eq!(report.claims.len(), 1);
    assert_eq!(report.claims[0].reason, "Uses superlative language");
}

#[test]
fn test_claim_verification() {
    let script =
        create_test_script(vec!["Benchmark results 2024".into()], "Rust is 10x faster");
    let report = CredibilityAnalyzer::analyze(&script);
    assert_eq!(report.claims.len(), 1);
    assert!(report.claims[0].verified); // Has citations
    assert_eq!(report.score, 100);
}

#[test]
fn test_no_claims_plain_text() {
    let script = create_test_script(vec![], "A calm walk through the park");
    let report = CredibilityAnalyzer::analyze(&script);
    assert_eq!(report.claims.len(), 0);
    assert_eq!(report.score, 100);
}

#[test]
fn test_absolute_terms_detected() {
    let script = create_test_script(vec![], "Everyone loves this trick");
    let report = CredibilityAnalyzer::analyze(&script);
    assert_eq!(report.claims.len(), 1);
    assert_eq!(report.claims[0].reason, "Uses absolute terms");
}

#[test]
fn test_default_config() {
    let config = AppConfig::default();
    assert_eq!(config.renderer.engine, "native");
    assert_eq!(config.video.default_resolution, "1920x1080");
    assert_eq!(config.video.default_fps, 30);
}

#[test]
fn test_config_load_defaults() {
    let config = AppConfig::default();
    assert_eq!(config.assets.base_path, ".");
}

#[test]
fn test_config_load_overrides() {
    let mut sources = ConfigSources::empty();
    sources.engine = Some("blender".into());
    sources.default_fps = Some(24);
    let config = AppConfig::load(sources);
    assert_eq!(config.renderer.engine, "blender");
    assert_eq!(config.video.default_fps, 24);
    assert_eq!(config.renderer.output_dir, "output");
    assert_eq!(config.assets.base_path, ".");
}
