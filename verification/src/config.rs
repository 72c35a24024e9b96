//! The renderer's configuration snapshot: backend selection, output
//! directory, default resolution and frame rate, asset base path.
//!
//! Gathering values from configuration files and the environment is
//! the I/O shell's work; it hands the values it found here as plain
//! optionals, and the library fills in the documented defaults.

use vstd::prelude::*;
use vstd::string::StringExecFns;

verus! {

/// Which rendering backend runs, and where frames go.
#[derive(Debug, Clone)]
pub struct RendererConfig {
    /// `native` for the pipeline of this crate; other names select
    /// external backends.
    pub engine: String,
    pub output_dir: String,
}

/// Defaults applied to scripts that leave them open.
#[derive(Debug, Clone)]
pub struct VideoConfig {
    pub default_resolution: String,
    pub default_fps: u32,
}

/// Where layer sources are resolved from.
#[derive(Debug, Clone)]
pub struct AssetsConfig {
    pub base_path: String,
}

/// One read-only configuration snapshot, taken at render start.
#[derive(Debug, Clone)]
pub struct AppConfig {
    pub renderer: RendererConfig,
    pub video: VideoConfig,
    pub assets: AssetsConfig,
}

/// The values the configuration sources (file, environment) offered;
/// `None` where a source stayed silent.
#[derive(Debug, Clone)]
pub struct ConfigSources {
    pub engine: Option<String>,
    pub output_dir: Option<String>,
    pub default_resolution: Option<String>,
    pub default_fps: Option<u32>,
    pub base_path: Option<String>,
}

impl ConfigSources {
    /// No source offered anything: loading yields the defaults.
    pub fn empty() -> (r: ConfigSources)
        ensures
            r.engine is None,
            r.output_dir is None,
            r.default_resolution is None,
            r.default_fps is None,
            r.base_path is None,
    {
        ConfigSources {
            engine: None,
            output_dir: None,
            default_resolution: None,
            default_fps: None,
            base_path: None,
        }
    }
}

impl Default for AppConfig {
    /// The documented defaults: the native backend writing to
    /// `output`, 1920x1080 at 30 frames per second, assets beside the
    /// working directory.
    fn default() -> (c: AppConfig)
        ensures
            c.renderer.engine@ == "native"@,
            c.renderer.output_dir@ == "output"@,
            c.video.default_resolution@ == "1920x1080"@,
            c.video.default_fps == 30,
            c.assets.base_path@ == "."@,
    {
        AppConfig {
            renderer: RendererConfig {
                engine: "native".to_owned(),
                output_dir: "output".to_owned(),
            },
            video: VideoConfig {
                default_resolution: "1920x1080".to_owned(),
                default_fps: 30,
            },
            assets: AssetsConfig { base_path: ".".to_owned() },
        }
    }
}

impl AppConfig {
    /// Builds the snapshot from what the sources offered: each field
    /// is the offered value, or its documented default where every
    /// source stayed silent.
    pub fn load(sources: ConfigSources) -> (c: AppConfig)
        ensures
            c.renderer.engine@ == match sources.engine {
                Some(s) => s@,
                None => "native"@,
            },
            c.renderer.output_dir@ == match sources.output_dir {
                Some(s) => s@,
                None => "output"@,
            },
            c.video.default_resolution@ == match sources.default_resolution {
                Some(s) => s@,
                None => "1920x1080"@,
            },
            c.video.default_fps == match sources.default_fps {
                Some(v) => v,
                None => 30u32,
            },
            c.assets.base_path@ == match sources.base_path {
                Some(s) => s@,
                None => "."@,
            },
    {
        let engine = match sources.engine {
            Some(s) => s,
            None => "native".to_owned(),
        };
        let output_dir = match sources.output_dir {
            Some(s) => s,
            None => "output".to_owned(),
        };
        let default_resolution = match sources.default_resolution {
            Some(s) => s,
            None => "1920x1080".to_owned(),
        };
        let default_fps = match sources.default_fps {
            Some(v) => v,
            None => 30,
        };
        let base_path = match sources.base_path {
            Some(s) => s,
            None => ".".to_owned(),
        };
        AppConfig {
            renderer: RendererConfig { engine, output_dir },
            video: VideoConfig { default_resolution, default_fps },
            assets: AssetsConfig { base_path },
        }
    }
}

} // verus!
