//! Pipelines, recorded passes, capacities and texture sizes of the renderer.
use ornis_render::declarations::{Color, TextureFormat};
use ornis_render::mesh::{sphere_counts, sphere_indices, VERTEX_ATTRIBUTES, VERTEX_STRIDE};
use ornis_render::renderer::{
    bloom_pipeline, composite_pipeline, forward_pipeline, gbuffer_pipeline, instance_buffer_size,
    instance_count, light_count, lighting_pipeline, material_buffer_size, material_count, pass_desc,
    pbr_pipeline, pipeline_for, scene_passes, ui_pipeline, Blend, Draw, Load, RendererState,
    Topology, GBUFFER_FORMATS,
};
use ornis_render::shaders::BindingType;
use ornis_render::system::PassBody;

#[test]
fn capacities_are_capped() {
    assert_eq!(material_count(3), 3);
    assert_eq!(material_count(64), 64);
    assert_eq!(material_count(65), 64);
    assert_eq!(instance_count(255), 255);
    assert_eq!(instance_count(1000), 256);
    assert_eq!(light_count(0), 0);
    assert_eq!(light_count(4), 4);
    assert_eq!(light_count(9), 4);
}

#[test]
fn buffers_hold_the_capacities() {
    assert_eq!(instance_buffer_size(), 144 * 256);
    assert_eq!(material_buffer_size(), 320 * 64);
}

#[test]
fn the_texture_budget_counts_every_persistent_texture() {
    // 4 + 4 + 4 + 4 + 8 + 4 for the g-buffer, 4 for the lit image, 8 for the forward layer.
    let state = RendererState::new(1280, 720, TextureFormat::Rgba8UnormSrgb, 1);
    assert_eq!(state.texture_budget(), 40 * 1280 * 720);
    let multisampled = RendererState::new(1280, 720, TextureFormat::Rgba8UnormSrgb, 4);
    assert_eq!(multisampled.texture_budget(), 4 * 40 * 1280 * 720);
}

#[test]
fn persistent_textures_follow_the_output() {
    let state = RendererState::new(640, 480, TextureFormat::Bgra8Unorm, 4);
    let textures = state.persistent_textures();
    assert_eq!(textures.len(), 8);
    assert!(textures
        .iter()
        .all(|t| (t.width, t.height, t.samples) == (640, 480, 4)));
    let formats: Vec<TextureFormat> = textures[..6].iter().map(|t| t.format).collect();
    assert_eq!(formats, GBUFFER_FORMATS.to_vec());
    assert_eq!(textures[6].format, TextureFormat::Bgra8Unorm);
    assert_eq!(textures[7].format, TextureFormat::Rgba16Float);
}

#[test]
fn extents_of_zero_count_as_one_pixel() {
    let mut state = RendererState::new(0, 0, TextureFormat::Rgba8Unorm, 1);
    assert_eq!(state.size(), (1, 1));
    state.resize(800, 0);
    assert_eq!(state.size(), (800, 1));
    assert_eq!(state.samples(), 1);
    assert_eq!(state.format(), TextureFormat::Rgba8Unorm);
}

#[test]
fn the_gbuffer_pipeline_writes_five_targets() {
    let p = gbuffer_pipeline(4);
    let formats: Vec<TextureFormat> = p.targets.iter().map(|t| t.format).collect();
    assert_eq!(formats, GBUFFER_FORMATS[..5].to_vec());
    // Integer targets cannot blend.
    assert_eq!(p.targets[2].blend, Blend::Off);
    assert_eq!(p.targets[0].blend, Blend::Replace);
    assert_eq!(p.geometry.depth, Some(TextureFormat::Depth32Float));
    assert_eq!(p.geometry.samples, 4);
    assert!(p.geometry.mesh && p.geometry.cull_back);
    assert_eq!(p.geometry.topology, Topology::TriangleList);
}

#[test]
fn quads_are_strips_without_depth() {
    for p in [
        lighting_pipeline(TextureFormat::Rgba8Unorm, 1),
        composite_pipeline(TextureFormat::Rgba8Unorm),
        bloom_pipeline(false),
        ui_pipeline(TextureFormat::Rgba8Unorm),
    ] {
        assert_eq!(p.geometry.topology, Topology::TriangleStrip, "{}", p.label);
        assert_eq!(p.geometry.depth, None, "{}", p.label);
        assert!(!p.geometry.mesh, "{}", p.label);
    }
}

#[test]
fn blending_follows_the_pass() {
    assert_eq!(forward_pipeline(1).targets[0].blend, Blend::Alpha);
    assert_eq!(bloom_pipeline(true).targets[0].blend, Blend::Add);
    assert_eq!(bloom_pipeline(false).targets[0].blend, Blend::Off);
    assert_eq!(
        pbr_pipeline(TextureFormat::Rgba8Unorm, 1).targets[0].blend,
        Blend::Replace
    );
}

#[test]
fn lighting_reads_multisampled_textures() {
    let multisampled = |samples: u32| {
        lighting_pipeline(TextureFormat::Rgba8Unorm, samples)
            .entries
            .iter()
            .filter(|e| {
                matches!(
                    e.ty,
                    BindingType::Texture {
                        multisampled: true,
                        ..
                    }
                )
            })
            .count()
    };
    assert_eq!(multisampled(1), 0);
    assert_eq!(multisampled(4), 6);
}

#[test]
fn pipelines_name_entry_points_of_their_shaders() {
    for p in [
        pbr_pipeline(TextureFormat::Rgba8Unorm, 1),
        gbuffer_pipeline(1),
        lighting_pipeline(TextureFormat::Rgba8Unorm, 1),
        forward_pipeline(1),
        composite_pipeline(TextureFormat::Rgba8Unorm),
        bloom_pipeline(true),
        ui_pipeline(TextureFormat::Rgba8Unorm),
    ] {
        assert!(p.vertex.contains(format!("fn {}(", p.vertex_entry).as_str()));
        assert!(p
            .fragment
            .contains(format!("fn {}(", p.fragment_entry).as_str()));
    }
}

#[test]
fn passes_start_from_their_clear_values() {
    let gbuffer = pass_desc(PassBody::Gbuffer);
    assert_eq!(gbuffer.colors, vec![Load::Clear(Color::transparent()); 5]);
    assert_eq!(gbuffer.depth, Some(Load::Clear(Color::white())));
    assert_eq!(gbuffer.draw, Draw::Mesh);
    let shared = pass_desc(PassBody::Forward { owns_depth: false });
    assert_eq!(shared.depth, Some(Load::Keep));
    let owned = pass_desc(PassBody::Forward { owns_depth: true });
    assert_eq!(owned.depth, Some(Load::Clear(Color::white())));
    let up = pass_desc(PassBody::BloomUp);
    assert_eq!(up.colors, vec![Load::Keep]);
    assert_eq!(up.draw, Draw::Quad);
    let lighting = pass_desc(PassBody::Lighting);
    assert_eq!(lighting.colors, vec![Load::Clear(Color::black())]);
}

#[test]
fn the_scene_is_the_hybrid_frame_without_bloom() {
    assert_eq!(
        scene_passes(),
        vec![
            PassBody::Gbuffer,
            PassBody::Lighting,
            PassBody::Forward { owns_depth: false },
            PassBody::Composite {
                shader_mode: 2,
                bloom: false
            },
        ]
    );
}

#[test]
fn recorded_attachments_match_the_pipelines() {
    for body in scene_passes() {
        let pass = pass_desc(body);
        let pipeline = pipeline_for(body, TextureFormat::Rgba8Unorm, 1);
        assert_eq!(pass.colors.len(), pipeline.targets.len(), "{}", pass.label);
        assert_eq!(
            pass.depth.is_some(),
            pipeline.geometry.depth.is_some(),
            "{}",
            pass.label
        );
    }
}

#[test]
fn degenerate_spheres_are_raised() {
    assert_eq!(sphere_counts(0, 0), (3, 2));
    assert_eq!(sphere_counts(32, 24), (32, 24));
}

#[test]
fn the_smallest_sphere() {
    assert_eq!(
        sphere_indices(3, 2),
        vec![1, 4, 5, 2, 5, 6, 3, 6, 7, 4, 8, 5, 5, 9, 6, 6, 10, 7]
    );
    assert_eq!(sphere_indices(1, 1), sphere_indices(3, 2));
}

#[test]
fn spheres_index_only_their_vertices() {
    let indices = sphere_indices(32, 24);
    assert_eq!(indices.len(), 3 * 2 * 32 * 23);
    assert!(indices.iter().all(|i| *i < 33 * 25));
}

#[test]
fn vertices_are_packed() {
    assert_eq!(VERTEX_STRIDE, 44);
    let offsets: Vec<u64> = VERTEX_ATTRIBUTES.iter().map(|(o, _, _)| *o).collect();
    assert_eq!(offsets, vec![0, 12, 24, 32]);
}
