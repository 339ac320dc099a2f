//! Defaults of the backend configuration.
use ornis_render::declarations::TextureFormat;
use ornis_render::render_backend::{
    surface_configuration, PresentMode, RenderBackendConfig, SurfaceUsage,
};

#[test]
fn default_config_matches_documented_defaults() {
    let config = RenderBackendConfig::default();
    assert_eq!(config.surface_config.width, 800);
    assert_eq!(config.surface_config.height, 600);
    assert_eq!(config.surface_config.format, TextureFormat::Rgba8UnormSrgb);
    assert_eq!(config.surface_config.usage, SurfaceUsage::RenderAttachment);
    assert_eq!(config.surface_config.present_mode, PresentMode::AutoNoVsync);
    assert_eq!(config.surface_config.desired_maximum_frame_latency, 2);
    assert!(config.surface_config.view_formats.is_empty());
    assert_eq!(config.sample_count, 1);
    assert_eq!(config.max_objects, 256);
    assert_eq!(config.max_materials, 64);
}

#[test]
fn surfaces_keep_the_asked_size_and_format() {
    let config = surface_configuration(TextureFormat::Bgra8Unorm, 1920, 1080);
    assert_eq!((config.width, config.height), (1920, 1080));
    assert_eq!(config.format, TextureFormat::Bgra8Unorm);
    assert_eq!(config.desired_maximum_frame_latency, 2);
}
