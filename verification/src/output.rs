//! The configuration of an output: which components it shows, and which
//! files these refer to.

use crate::bar_processor::config::{
    BarDistribution, BarProcessorConfig, InterpolationVariant,
};
use crate::fixed::Fixed;
use std::ops::Range;
use vstd::prelude::*;

verus! {

/// Where the code of a shader comes from.
#[derive(Debug)]
pub enum ShaderSource {
    /// The path of a file that holds the code.
    Path(String),
    /// The code itself.
    Code(String),
}

/// The language of a shader.
#[derive(Clone, Copy, Debug, PartialEq, Eq, Structural)]
pub enum ShaderLanguage {
    Wgsl,
    Glsl,
}

/// The code of a shader.
#[derive(Debug)]
pub struct ShaderCode {
    pub language: ShaderLanguage,
    pub source: ShaderSource,
}

/// A texture that a fragment canvas samples.
#[derive(Debug)]
pub struct FragmentCanvasTexture {
    /// The path of the image.
    pub path: String,
}

/// What a fragment canvas wants of the bars.
#[derive(Debug)]
pub struct FragmentCanvasAudioConfig {
    pub amount_bars: u16,
    pub freq_range: Range<u16>,
    pub sensitivity: Fixed,
}

impl Default for FragmentCanvasAudioConfig {
    /// Sixty bars from 50 Hz to 10 kHz.
    fn default() -> (config: Self)
        ensures
            config.amount_bars == 60,
            config.freq_range.start == 50,
            config.freq_range.end == 10_000,
            config.sensitivity.raw == 200_000_000,
    {
        FragmentCanvasAudioConfig {
            amount_bars: 60,
            freq_range: 50..10_000,
            sensitivity: Fixed { raw: 200_000_000 },
        }
    }
}

impl FragmentCanvasAudioConfig {
    /// The configuration of the bar processor of a fragment canvas: what
    /// the canvas asks for, and the default for the rest.
    pub fn bar_processor_config(&self) -> (config: BarProcessorConfig)
        ensures
            config.amount_bars == self.amount_bars,
            config.freq_range == self.freq_range,
            config.sensitivity == self.sensitivity,
            config.interpolation == InterpolationVariant::CubicSpline,
            config.bar_distribution == BarDistribution::Uniform,
            config.padding.is_none(),
    {
        let rest = BarProcessorConfig::default();
        BarProcessorConfig {
            amount_bars: self.amount_bars,
            freq_range: self.freq_range.start..self.freq_range.end,
            sensitivity: self.sensitivity,
            interpolation: rest.interpolation,
            bar_distribution: rest.bar_distribution,
            padding: rest.padding,
        }
    }
}

/// A canvas that is drawn by a fragment shader.
#[derive(Debug)]
pub struct FragmentCanvasConfig {
    pub audio_conf: FragmentCanvasAudioConfig,
    pub fragment_code: ShaderCode,
    pub texture: Option<FragmentCanvasTexture>,
}

/// A wallpaper whose edges pulse.
#[derive(Debug)]
pub struct WallpaperPulseEdgesConfig {
    /// The path of the wallpaper.
    pub wallpaper_path: String,
}

/// A wallpaper with light sources.
#[derive(Debug)]
pub struct LightSourcesConfig {
    /// The path of the wallpaper.
    pub wallpaper_path: String,
}

/// A component of an output.
#[derive(Debug)]
pub enum Config {
    FragmentCanvas(FragmentCanvasConfig),
    WallpaperPulseEdges(WallpaperPulseEdgesConfig),
    WallpaperLightSources(LightSourcesConfig),
}

/// The configuration of an output.
#[derive(Debug)]
pub struct OutputConfig {
    pub enable: bool,
    /// The name of the node to capture audio from, if not the default.
    pub audio_target: Option<String>,
    pub components: Vec<Config>,
}

/// The paths that a fragment canvas refers to: that of its code, where the
/// code lies in a file, then that of its texture, where it has one.
pub open spec fn spec_canvas_paths(config: FragmentCanvasConfig) -> Seq<String> {
    let code: Seq<String> = match config.fragment_code.source {
        ShaderSource::Path(path) => seq![path],
        ShaderSource::Code(_) => Seq::empty(),
    };
    match config.texture {
        Some(texture) => code.push(texture.path),
        None => code,
    }
}

/// The paths that a component refers to.
pub open spec fn spec_component_paths(component: Config) -> Seq<String> {
    match component {
        Config::FragmentCanvas(config) => spec_canvas_paths(config),
        Config::WallpaperPulseEdges(config) => seq![config.wallpaper_path],
        Config::WallpaperLightSources(config) => seq![config.wallpaper_path],
    }
}

/// The paths that the first `n` components refer to, in their order.
pub open spec fn spec_external_paths(components: Seq<Config>, n: int) -> Seq<String>
    decreases n,
{
    if n <= 0 {
        Seq::empty()
    } else {
        spec_external_paths(components, n - 1) + spec_component_paths(components[n - 1])
    }
}

impl FragmentCanvasConfig {
    /// The paths that the canvas refers to.
    pub fn external_paths(&self) -> (paths: Vec<String>)
        ensures
            paths@ == spec_canvas_paths(*self),
    {
        let mut paths: Vec<String> = Vec::new();
        match &self.fragment_code.source {
            ShaderSource::Path(path) => {
                paths.push(path.clone());
            },
            ShaderSource::Code(_) => {},
        }
        match &self.texture {
            Some(texture) => {
                paths.push(texture.path.clone());
            },
            None => {},
        }
        assert(paths@ =~= spec_canvas_paths(*self));
        paths
    }
}

impl Config {
    /// The paths that the component refers to.
    pub fn external_paths(&self) -> (paths: Vec<String>)
        ensures
            paths@ == spec_component_paths(*self),
    {
        match self {
            Config::FragmentCanvas(config) => config.external_paths(),
            Config::WallpaperPulseEdges(config) => {
                let mut paths: Vec<String> = Vec::new();
                paths.push(config.wallpaper_path.clone());
                assert(paths@ =~= seq![config.wallpaper_path]);
                paths
            },
            Config::WallpaperLightSources(config) => {
                let mut paths: Vec<String> = Vec::new();
                paths.push(config.wallpaper_path.clone());
                assert(paths@ =~= seq![config.wallpaper_path]);
                paths
            },
        }
    }
}

impl OutputConfig {
    /// Every path that the configuration refers to: the files that have to
    /// be watched besides the configuration itself.
    pub fn external_paths(&self) -> (paths: Vec<String>)
        ensures
            paths@ == spec_external_paths(self.components@, self.components@.len() as int),
    {
        let mut paths: Vec<String> = Vec::new();
        let mut idx: usize = 0;
        while idx < self.components.len()
            invariant
                idx <= self.components@.len(),
                paths@ == spec_external_paths(self.components@, idx as int),
            decreases self.components@.len() - idx,
        {
            let mut more: Vec<String> = self.components[idx].external_paths();
            paths.append(&mut more);
            idx += 1;
        }
        paths
    }
}

} // verus!
