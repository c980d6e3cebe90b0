use std::collections::HashSet;
use vibe_audio::output::{
    Config, FragmentCanvasAudioConfig, FragmentCanvasConfig, FragmentCanvasTexture,
    LightSourcesConfig, OutputConfig, ShaderCode, ShaderLanguage, ShaderSource,
    WallpaperPulseEdgesConfig,
};

#[test]
fn external_paths() {
    let output_config = OutputConfig {
        enable: true,
        audio_target: None,
        components: vec![
            Config::FragmentCanvas(FragmentCanvasConfig {
                audio_conf: FragmentCanvasAudioConfig::default(),
                texture: Some(FragmentCanvasTexture { path: "/dir/fragment_canvas_img.png".into() }),
                fragment_code: ShaderCode {
                    language: ShaderLanguage::Wgsl,
                    source: ShaderSource::Path("/dir/fragment_canvas_code.wgsl".into()),
                },
            }),
            Config::WallpaperPulseEdges(WallpaperPulseEdgesConfig {
                wallpaper_path: "/tmp/wallpaper_palse_edges.png".into(),
            }),
            Config::WallpaperLightSources(LightSourcesConfig {
                wallpaper_path: "/tmp/wallpaper_light_sources.png".into(),
            }),
        ],
    };

    let expected: HashSet<String> = HashSet::from([
        "/dir/fragment_canvas_img.png".into(),
        "/dir/fragment_canvas_code.wgsl".into(),
        "/tmp/wallpaper_palse_edges.png".into(),
        "/tmp/wallpaper_light_sources.png".into(),
    ]);

    let current: HashSet<String> = output_config.external_paths().into_iter().collect();

    assert_eq!(expected, current);
}

#[test]
fn external_paths_come_in_the_order_of_the_components() {
    let config = OutputConfig {
        enable: false,
        audio_target: Some("tts_sink".into()),
        components: vec![
            Config::WallpaperLightSources(LightSourcesConfig { wallpaper_path: "/a.png".into() }),
            Config::FragmentCanvas(FragmentCanvasConfig {
                audio_conf: FragmentCanvasAudioConfig::default(),
                texture: None,
                fragment_code: ShaderCode {
                    language: ShaderLanguage::Glsl,
                    source: ShaderSource::Code("void main() {}".into()),
                },
            }),
            Config::FragmentCanvas(FragmentCanvasConfig {
                audio_conf: FragmentCanvasAudioConfig::default(),
                texture: Some(FragmentCanvasTexture { path: "/t.png".into() }),
                fragment_code: ShaderCode {
                    language: ShaderLanguage::Glsl,
                    source: ShaderSource::Path("/c.glsl".into()),
                },
            }),
        ],
    };
    assert_eq!(config.external_paths(), vec!["/a.png", "/c.glsl", "/t.png"]);
    let none = OutputConfig { enable: true, audio_target: None, components: vec![] };
    assert!(none.external_paths().is_empty());
}

#[test]
fn canvas_audio_config_becomes_a_bar_processor_config() {
    let canvas = FragmentCanvasAudioConfig::default();
    assert_eq!(canvas.amount_bars, 60);
    let config = canvas.bar_processor_config();
    assert_eq!(config.amount_bars, 60);
    assert_eq!(config.freq_range, 50..10_000);
    assert_eq!(config.sensitivity.raw, 200_000_000);
    assert!(config.padding.is_none());
}
