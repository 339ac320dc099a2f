//! Shape and validity of the assembled shader modules.
use ornis_render::shaders::assembly::wgsl_decl;
use ornis_render::shaders::{
    bgl_entry, bloom_fragment, bloom_generated, buffer_layouts, composite_fragment,
    composite_generated, composite_vertex, gbuffer_fragment, gbuffer_generated, gbuffer_vertex,
    hdr_composite_generated, helpers, interface, lighting_fragment, lighting_generated,
    lighting_vertex, math, openpbr, pbr_fragment, pbr_generated, pbr_vertex, resource_decl,
    BindingType, Resource, ShaderStages,
};

fn assert_valid_wgsl(name: &str, source: &str) {
    let module = match naga::front::wgsl::parse_str(source) {
        Ok(module) => module,
        Err(e) => panic!("{name} must parse: {e}\n{source}"),
    };
    let mut validator = naga::valid::Validator::new(
        naga::valid::ValidationFlags::all(),
        naga::valid::Capabilities::all(),
    );
    if let Err(e) = validator.validate(&module) {
        panic!("{name} must validate: {e:?}");
    }
}

fn camera_source() -> String {
    buffer_layouts::struct_source(buffer_layouts::CAMERA_NAME, &buffer_layouts::CAMERA)
}

fn light_source() -> String {
    buffer_layouts::struct_source(buffer_layouts::LIGHT_NAME, &buffer_layouts::LIGHT)
}

fn lighting_source() -> String {
    buffer_layouts::struct_source(buffer_layouts::LIGHTING_NAME, &buffer_layouts::LIGHTING)
}

fn bloom_source() -> String {
    buffer_layouts::struct_source(buffer_layouts::BLOOM_NAME, &buffer_layouts::BLOOM)
}

fn fragment_input_source() -> String {
    interface::interface_source(
        interface::GBUFFER_FRAGMENT_INPUT_NAME,
        &interface::GBUFFER_FRAGMENT_INPUT,
    )
}

#[test]
fn bloom_generated_validates_with_naga() {
    assert_valid_wgsl("bloom_generated", &bloom_generated::wgsl_source());
}

#[test]
fn bloom_generated_contains_expected_bindings() {
    let src = bloom_generated::wgsl_source();
    assert!(src.contains("@group(0) @binding(0) var src_tex"));
    assert!(src.contains("@group(0) @binding(1) var src_sampler"));
    assert!(src.contains("@group(0) @binding(2) var<uniform> bloom_params"));
    assert!(src.contains("fn vs_main("));
    assert!(src.contains("fn fs_main("));
    assert!(src.contains("fn luminance"));
}

#[test]
fn bloom_entries_match_legacy_shape() {
    let vs = bloom_generated::vertex_entry();
    assert!(vs.starts_with("@vertex\nfn vs_main(@builtin(vertex_index) idx: u32)"));
    assert!(vs.contains("return BloomVertexOutput(QUAD[idx], UVS[idx]) /* clip_position, uv */;"));
    let fs = bloom_generated::fragment_entry();
    assert!(fs.starts_with("@fragment\nfn fs_main(@location(0) uv: vec2<f32>)"));
    assert!(fs.contains("-> @location(0) vec4<f32>"));
    assert!(fs.contains("let color = textureSample(src_tex, src_sampler, uv).rgb;"));
    assert!(fs.contains("return vec4<f32>(color * keep, 1.0);"));
}

/// Every row has its declaration in the source and maps to a layout entry.
fn assert_rows_covered(src: &str, table: &[Resource]) {
    for r in table {
        assert!(src.contains(&resource_decl(r)), "missing {}", r.name);
        let e = bgl_entry(r, false);
        assert_eq!((e.binding, e.visibility), (r.binding, r.visibility));
    }
}

#[test]
fn bloom_resources_cover_shader_and_layout() {
    let src = bloom_generated::wgsl_source();
    let table = bloom_generated::bloom_resources();
    assert_eq!(table.len(), 3);
    assert_rows_covered(&src, &table);
    assert!(matches!(table[2].min_size, Some(s) if s == 16));
}

#[test]
fn composite_generated_validates_with_naga() {
    assert_valid_wgsl("composite_generated", &composite_generated::wgsl_source());
}

#[test]
fn composite_generated_contains_expected_bindings() {
    let src = composite_generated::wgsl_source();
    assert!(src.contains("@group(0) @binding(0) var pbr_tex"));
    assert!(src.contains("@group(0) @binding(1) var pbr_sampler"));
    assert!(src.contains("@group(0) @binding(2) var ui_tex"));
    assert!(src.contains("@group(0) @binding(3) var ui_sampler"));
    assert!(src.contains("fn vs("));
    assert!(src.contains("fn fs("));
    assert!(src.contains("fn srgb_to_linear"));
}

#[test]
fn composite_resources_cover_shader_and_layout() {
    let src = composite_generated::wgsl_source();
    let table = composite_generated::composite_resources();
    assert_eq!(table.len(), 4);
    assert_rows_covered(&src, &table);
}

#[test]
fn gbuffer_generated_validates_with_naga() {
    assert_valid_wgsl("gbuffer_vertex", &gbuffer_generated::wgsl_vertex_source());
    assert_valid_wgsl("gbuffer_fragment", &gbuffer_generated::wgsl_source());
}

#[test]
fn gbuffer_generated_contains_expected_bindings() {
    let vs = gbuffer_generated::wgsl_vertex_source();
    assert!(vs.contains("@group(0) @binding(1) var<storage, read> per_objects"));
    assert!(vs.contains("fn vs_main("));
    let fs = gbuffer_generated::wgsl_source();
    assert!(fs.contains("@group(0) @binding(2) var<storage, read> materials"));
    assert!(fs.contains("fn fs_main("));
    assert!(fs.contains("fn octahedral_encode"));
}

#[test]
fn gbuffer_vertex_entry_matches_legacy_shape() {
    let entry = gbuffer_generated::vertex_entry();
    assert!(entry.starts_with(
        "@vertex\nfn vs_main(input: VertexInput, @builtin(instance_index) instance: u32)"
    ));
    assert!(entry.contains("-> VertexOutput"));
    assert!(entry.contains("let obj = per_objects[instance];"));
    assert!(entry.contains("output.clip_position = camera.view_proj * world_pos;"));
    assert!(entry.contains("output.material_index = obj.material_index;"));
    assert!(entry.contains("return output;"));
}

#[test]
fn gbuffer_fragment_entry_matches_legacy_shape() {
    let entry = gbuffer_generated::fragment_entry();
    assert!(entry.starts_with("@fragment\nfn fs_main(input: FragmentInput)"));
    assert!(entry.contains("-> GBufferOutput"));
    assert!(entry.contains("let mat = materials[input.material_index];"));
    assert!(entry.contains("let normal_enc = octahedral_encode(n);"));
    assert!(entry.contains("output.mat_params = mat_params;"));
    assert!(entry.contains("return output;"));
}

#[test]
fn gbuffer_resources_cover_stages_and_layout() {
    let src = gbuffer_generated::wgsl_vertex_source() + &gbuffer_generated::wgsl_source();
    let table = gbuffer_generated::gbuffer_resources();
    assert_eq!(table.len(), 3);
    assert_rows_covered(&src, &table);
}

#[test]
fn gbuffer_generated_parity_with_legacy_assembly() {
    let src = gbuffer_generated::wgsl_source();
    assert!(src.contains(openpbr::openpbr_material_decl().as_str()));
    assert!(src.contains(&wgsl_decl(&fragment_input_source())));
    let out =
        interface::interface_source(interface::GBUFFER_OUTPUT_NAME, &interface::GBUFFER_OUTPUT);
    assert!(src.contains(&wgsl_decl(&out)));
}

#[test]
fn hdr_composite_generated_validates_with_naga() {
    assert_valid_wgsl("hdr_composite_vertex", &hdr_composite_generated::wgsl_vertex_source());
    assert_valid_wgsl("hdr_composite_fragment", &hdr_composite_generated::wgsl_source());
}

#[test]
fn hdr_composite_generated_contains_expected_bindings() {
    let src = hdr_composite_generated::wgsl_source();
    assert!(src.contains("@group(0) @binding(0) var deferred_tex"));
    assert!(src.contains("@group(0) @binding(4) var<uniform> bloom_params"));
    assert!(src.contains("fn vs_main("));
    assert!(src.contains("fn fs_main("));
    assert!(src.contains("fn aces_tonemap"));
    assert!(src.contains("fn luminance"));
}

#[test]
fn hdr_vertex_entry_matches_legacy_shape() {
    let entry = hdr_composite_generated::vertex_entry();
    assert!(entry.starts_with("@vertex\nfn vs_main(@builtin(vertex_index) vertex_index: u32)"));
    assert!(entry.contains("-> CompositeVertexOutput"));
    assert!(entry.contains(
        "return CompositeVertexOutput(quad[vertex_index], uvs[vertex_index]) /* clip_position, uv */;"
    ));
}

#[test]
fn hdr_fragment_entry_matches_legacy_shape() {
    let entry = hdr_composite_generated::fragment_entry();
    assert!(entry.starts_with("@fragment\nfn fs_main(input: QuadVertexOutput)"));
    assert!(entry.contains("-> @location(0) vec4<f32>"));
    assert!(entry.contains(
        "let deferred_color = textureSample(deferred_tex, composite_sampler, input.uv).rgb;"
    ));
    assert!(entry.contains("if (bloom_params.mode =="));
    assert!(entry.contains("combined = forward_color.rgb * forward_color.a;"));
    assert!(entry.contains("combined = deferred_color + forward_color.rgb * forward_color.a;"));
    assert!(entry
        .contains("let tonemapped = aces_tonemap(combined + bloom * bloom_params.intensity);"));
    assert!(entry.contains("return vec4<f32>(tonemapped, 1.0);"));
}

#[test]
fn hdr_generated_parity_with_legacy_assembly() {
    let src = hdr_composite_generated::wgsl_source();
    assert!(src.contains(&wgsl_decl(&camera_source())));
    assert!(src.contains(&wgsl_decl(&bloom_source())));
    let varyings =
        interface::interface_source(interface::HDR_FRAGMENT_OUT_NAME, &interface::HDR_FRAGMENT_OUT);
    assert!(src.contains(&wgsl_decl(&varyings)));
    assert!(!src.contains("_pad"));
}

#[test]
fn hdr_resources_cover_shader_and_layout() {
    let src = hdr_composite_generated::wgsl_source();
    let table = hdr_composite_generated::hdr_resources();
    assert_eq!(table.len(), 5);
    assert_rows_covered(&src, &table);
}

#[test]
fn helper_sources_keep_legacy_signatures() {
    assert!(helpers::evaluate_base_layer()
        .starts_with("fn evaluate_base_layer(n: vec3<f32>, v: vec3<f32>"));
    assert!(helpers::evaluate_coat_layer().contains("mat: OpenPBRMaterial"));
    assert!(helpers::octahedral_decode()
        .starts_with("fn octahedral_decode(p: vec2<f32>) -> vec3<f32>"));
    assert!(helpers::reconstruct_world_pos().contains("camera: Camera"));
    for src in [
        helpers::evaluate_base_layer(),
        helpers::transmission_btdf(),
        helpers::octahedral_decode(),
    ] {
        assert!(!src.contains("Vec3"), "glam spelling leaked: {src}");
        assert!(!src.contains("glam"), "glam spelling leaked: {src}");
    }
}

#[test]
fn rust_consts_are_f32_exact() {
    let pi: f32 = helpers::PI.parse().unwrap();
    let eps: f32 = helpers::EPS.parse().unwrap();
    let inv_pi: f32 = helpers::INV_PI.parse().unwrap();
    assert_eq!(pi.to_bits(), (std::f64::consts::PI as f32).to_bits());
    assert_eq!(eps.to_bits(), 1e-6f32.to_bits());
    assert_eq!(inv_pi.to_bits(), (std::f64::consts::FRAC_1_PI as f32).to_bits());
    assert_eq!(helpers::PI, format!("{}", std::f32::consts::PI));
    assert_eq!(helpers::EPS, format!("{}", 1e-6f32));
    assert_eq!(helpers::INV_PI, format!("{}", std::f32::consts::FRAC_1_PI));
    let consts = helpers::wgsl_consts();
    assert!(consts.contains("const PI: f32"));
    assert!(consts.contains("const EPS: f32"));
    assert!(consts.contains("const INV_PI: f32"));
}

#[test]
fn lighting_generated_validates_with_naga() {
    assert_valid_wgsl("lighting_generated", &lighting_generated::wgsl_source());
}

#[test]
fn lighting_generated_contains_expected_kernels() {
    let src = lighting_generated::wgsl_source();
    assert!(src.contains("fn aces_tonemap"));
    assert!(src.contains("fn fresnel_f82_tint"));
    assert!(src.contains("fn ggx_ndf_aniso"));
    assert!(src.contains("fn fs_main"));
}

#[test]
fn lighting_resources_drive_bgl_and_wgsl() {
    let table = lighting_generated::lighting_resources();
    assert_eq!(table.len(), 10);
    for r in &table {
        let decl = resource_decl(r);
        assert!(decl.starts_with(&format!("@group({}) @binding({}) ", r.group, r.binding)));
        let plain = bgl_entry(r, false);
        let msaa = bgl_entry(r, true);
        assert_eq!(plain.binding, r.binding);
        assert_eq!(plain.visibility, r.visibility);
        let is_texture = matches!(plain.ty, BindingType::Texture { .. });
        assert_eq!(format!("{:?}", plain.ty) != format!("{:?}", msaa.ty), is_texture);
    }
    assert!(table[0].visibility.contains(ShaderStages::vertex()));
}

#[test]
fn lighting_struct_blocks_match_derived_layouts() {
    let src = lighting_generated::wgsl_source();
    let cam = src.find(&wgsl_decl(&camera_source())).expect("Camera");
    let light = src.find(&wgsl_decl(&light_source())).expect("Light");
    let lighting = src.find(&wgsl_decl(&lighting_source())).expect("Lighting");
    let mat = src.find(openpbr::openpbr_material_decl().as_str()).expect("OpenPBR");
    let b9 = src
        .find("@group(0) @binding(9) var lighting_sampler: sampler;")
        .expect("bindings");
    assert!(cam < light && light < lighting && lighting < mat && mat < b9);
    assert_eq!(src.matches("@group(0) @binding(").count(), 10);
}

#[test]
fn lighting_fragment_entry_matches_legacy_shape() {
    let entry = lighting_generated::fragment_entry();
    assert!(entry.starts_with("@fragment\nfn fs_main(@location(0) uv: vec2<f32>)"));
    assert!(entry.contains("-> @location(0) vec4<f32>"));
    assert!(entry.contains(
        "textureLoad(depth_tex, vec2<u32>(uv * vec2<f32>(textureDimensions(depth_tex))), 0)"
    ));
    assert!(entry.contains("discard;"));
    assert!(entry.contains("for (var i: u32 = 0; i < lighting.light_count; i = i + 1)"));
    assert!(entry.contains("continue;"));
    assert!(entry.contains("let base_bsdf = evaluate_base_layer("));
    assert!(entry
        .contains("let layer_bsdf = base_bsdf + coat_bsdf + fuzz_bsdf + trans_bsdf + ss_bsdf;"));
    assert!(entry.contains("return vec4<f32>(tone_mapped, opacity);"));
}

#[test]
fn wgsl_generates() {
    assert!(math::LUMINANCE.contains("fn luminance"));
    assert!(math::ACES_TONEMAP.contains("fn aces_tonemap"));
}

#[test]
fn all_wgsl_sources_compile() {
    let funcs: [&str; 19] = [
        math::LUMINANCE,
        math::ACES_TONEMAP,
        math::FRESNEL0_FROM_IOR,
        math::FRESNEL_SCHLICK,
        math::FRESNEL_SCHLICK_VEC,
        math::FRESNEL_F82_TINT,
        math::GGX_NDF,
        math::GGX_NDF_ANISO,
        math::OPENPBR_ANISOTROPY,
        math::SMITH_GGX_CORRELATED,
        math::SMITH_GGX_ANISO,
        math::OREN_NAYAR_BRDF,
        math::SHEEN_BRDF,
        math::TRANSMISSION_COLOR_TO_EXTINCTION,
        math::SUBSURFACE_BRDF,
        math::SRGB_TO_LINEAR,
        math::COAT_DARKENING,
        math::THIN_FILM_MODULATION,
        math::OCTAHEDRAL_ENCODE,
    ];
    for src in funcs.iter() {
        assert!(src.starts_with("fn "), "bad source: {src}");
        assert!(src.contains("->"), "missing return type: {src}");
        let module = helpers::wgsl_consts() + src;
        assert_valid_wgsl("kernel", &module);
    }
}

#[test]
fn entry_points_match_pass_abi() {
    assert_eq!(hdr_composite_generated::VERTEX_ENTRY_POINT, "vs_main");
    assert_eq!(hdr_composite_generated::FRAGMENT_ENTRY_POINT, "fs_main");
    assert_eq!(bloom_generated::VERTEX_ENTRY_POINT, "vs_main");
    assert_eq!(bloom_generated::FRAGMENT_ENTRY_POINT, "fs_main");
    assert_eq!(lighting_generated::VERTEX_ENTRY_POINT, "vs_main");
    assert_eq!(lighting_generated::FRAGMENT_ENTRY_POINT, "fs_main");
    assert_eq!(composite_generated::VERTEX_ENTRY_POINT, "vs_main");
    assert_eq!(composite_generated::FRAGMENT_ENTRY_POINT, "fs_main");
    assert_eq!(gbuffer_generated::VERTEX_ENTRY_POINT, "vs_main");
    assert_eq!(gbuffer_generated::FRAGMENT_ENTRY_POINT, "fs_main");
    assert_eq!(pbr_generated::FRAGMENT_ENTRY_POINT, "fs_main");
}

#[test]
fn pbr_generated_validates_with_naga() {
    assert_valid_wgsl("pbr_vertex", &pbr_generated::wgsl_vertex_source());
    assert_valid_wgsl("pbr_fragment", &pbr_generated::wgsl_source());
}

#[test]
fn pbr_generated_contains_expected_bindings() {
    let vs = pbr_generated::wgsl_vertex_source();
    assert!(vs.contains("@group(0) @binding(1) var<storage, read> per_objects"));
    assert!(vs.contains("fn vs_main("));
    let fs = pbr_generated::wgsl_source();
    assert!(fs.contains("@group(0) @binding(3) var<uniform> lighting"));
    assert!(fs.contains("fn fs_main("));
    assert!(fs.contains("fn evaluate_base_layer"));
    assert!(fs.contains("fn aces_tonemap"));
}

#[test]
fn fs_main_matches_legacy_shape() {
    let entry = pbr_generated::fs_main();
    assert!(entry.starts_with("@fragment\nfn fs_main(input: FragmentInput)"));
    assert!(entry.contains("-> @location(0) vec4<f32>"));
    assert!(entry.contains("let mat = materials[input.material_index];"));
    assert!(entry.contains("for (var i: u32 = 0; i < lighting.light_count; i = i + 1)"));
    assert!(entry.contains("continue;"));
    assert!(entry.contains("let base_bsdf = evaluate_base_layer("));
    assert!(entry
        .contains("let layer_bsdf = base_bsdf + coat_bsdf + fuzz_bsdf + trans_bsdf + ss_bsdf;"));
    assert!(entry.contains("return vec4<f32>(tone_mapped, opacity);"));
}

#[test]
fn pbr_generated_parity_with_legacy_assembly() {
    assert_eq!(pbr_generated::wgsl_vertex_source(), gbuffer_generated::wgsl_vertex_source());
    let src = pbr_generated::wgsl_source();
    assert!(src.contains(&camera_source()));
    assert!(src.contains(wgsl_decl(&light_source()).as_str()));
    assert!(src.contains(wgsl_decl(&lighting_source()).as_str()));
    assert!(src.contains(openpbr::openpbr_material_decl().as_str()));
}

#[test]
fn pbr_resources_cover_stages_and_layout() {
    let src = pbr_generated::wgsl_vertex_source() + &pbr_generated::wgsl_source();
    let table = pbr_generated::pbr_resources();
    assert_eq!(table.len(), 4);
    assert_rows_covered(&src, &table);
}

#[test]
fn assembled_shaders_validate_with_naga() {
    let shaders: [(&str, String); 9] = [
        ("composite_vertex", composite_vertex()),
        ("composite_fragment", composite_fragment()),
        ("bloom_fragment", bloom_fragment()),
        ("gbuffer_vertex", gbuffer_vertex()),
        ("gbuffer_fragment", gbuffer_fragment()),
        ("lighting_vertex", lighting_vertex()),
        ("lighting_fragment", lighting_fragment()),
        ("pbr_vertex", pbr_vertex()),
        ("pbr_fragment", pbr_fragment()),
    ];
    for (name, source) in &shaders {
        assert_valid_wgsl(name, source);
    }
}
