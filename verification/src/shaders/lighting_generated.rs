//! The deferred lighting shader: reads the g-buffer back and shades every covered pixel.
use vstd::prelude::*;
#[allow(unused_imports)]
use vstd::string::*;

use crate::shaders;
use crate::shaders::assembly;
use crate::shaders::assembly::wgsl_decl;
use crate::shaders::buffer_layouts;
use crate::shaders::helpers;
use crate::shaders::interface;
use crate::shaders::math;
use crate::shaders::openpbr;
use crate::shaders::quad;
use crate::shaders::shading;
use crate::shaders::source;
use crate::shaders::{resource_decls, Resource, ResourceKind, ShaderStages};
use crate::text;

verus! {

/// Name of the vertex entry point.
pub const VERTEX_ENTRY_POINT: &'static str = "vs_main";

/// Name of the fragment entry point.
pub const FRAGMENT_ENTRY_POINT: &'static str = "fs_main";

/// Bindings that the fragment module declares.
pub const BINDINGS: [u32; 10] = [0, 1, 2, 3, 4, 5, 6, 7, 8, 9];

/// Buffers and sampler that the fragment stage reads.
pub const FRAGMENT_GLOBALS: [&'static str; 4] = ["camera", "lighting", "materials", "lighting_sampler"];

/// G-buffer targets that the fragment stage reads.
pub const FRAGMENT_MAPS: [&'static str; 6] = [
    "albedo_tex",
    "normal_tex",
    "material_id_tex",
    "world_pos_tex",
    "mat_params_tex",
    "depth_tex",
];

/// Body of the vertex entry point.
pub const VERTEX_BODY: &'static str = "return QuadVertexOutput(QUAD[idx], UVS[idx]) /* clip_position, uv */;";

/// Start of the fragment body: the g-buffer at the pixel; uncovered pixels are discarded.
pub const GBUFFER_READ: &'static str = "let depth = textureLoad(depth_tex, vec2<u32>(uv * vec2<f32>(textureDimensions(depth_tex))), 0); \
    let albedo = textureSampleLevel(albedo_tex, lighting_sampler, uv, 0.0); \
    let normal_enc = textureSampleLevel(normal_tex, lighting_sampler, uv, 0.0); \
    let material_id = textureLoad(material_id_tex, vec2<u32>(uv * vec2<f32>(textureDimensions(material_id_tex))), 0).r; \
    let world_pos_enc = textureSampleLevel(world_pos_tex, lighting_sampler, uv, 0.0); \
    let mat_params = textureSampleLevel(mat_params_tex, lighting_sampler, uv, 0.0); \
    let mat = materials[material_id]; \
    if (albedo.a < 0.001) { discard; } \
    let n = octahedral_decode(normal_enc.rg); \
    let world_pos = reconstruct_world_pos(uv, depth, camera); \
    let v = normalize(camera.camera_pos.xyz - world_pos); \
    let nov = max(dot(n, v), EPS); ";

/// A tangent frame around the normal.
pub const TANGENTS: &'static str = "let t = normalize(cross(n, vec3<f32>(0.0, 1.0, 0.0))); \
    let b = cross(n, t); ";

/// Resources of the lighting pass.
pub open spec fn lighting_rows() -> Seq<Resource> {
    seq![
        shaders::row(
            0,
            shaders::both_stages(),
            "camera",
            ResourceKind::Uniform(buffer_layouts::CAMERA_NAME),
            None,
        ),
        shaders::row(
            1,
            shaders::fragment_stage(),
            "lighting",
            ResourceKind::Uniform(buffer_layouts::LIGHTING_NAME),
            None,
        ),
        shaders::row(
            2,
            shaders::fragment_stage(),
            "materials",
            ResourceKind::StorageReadArray(openpbr::OPENPBR_WGSL_NAME),
            None,
        ),
        shaders::row(3, shaders::fragment_stage(), "albedo_tex", ResourceKind::TextureFloat, None),
        shaders::row(4, shaders::fragment_stage(), "normal_tex", ResourceKind::TextureFloat, None),
        shaders::row(
            5,
            shaders::fragment_stage(),
            "material_id_tex",
            ResourceKind::TextureUint,
            None,
        ),
        shaders::row(
            6,
            shaders::fragment_stage(),
            "world_pos_tex",
            ResourceKind::TextureFloat,
            None,
        ),
        shaders::row(
            7,
            shaders::fragment_stage(),
            "mat_params_tex",
            ResourceKind::TextureFloat,
            None,
        ),
        shaders::row(8, shaders::fragment_stage(), "depth_tex", ResourceKind::TextureDepth, None),
        shaders::row(
            9,
            shaders::fragment_stage(),
            "lighting_sampler",
            ResourceKind::Sampler,
            None,
        ),
    ]
}

/// Resources of the lighting pass.
pub fn lighting_resources() -> (table: [Resource; 10])
    ensures
        table@ == lighting_rows(),
        shaders::numbered(table@),
        shaders::sizes_ok(table@),
{
    let table = [
        Resource::new(
            0,
            ShaderStages::vertex_fragment(),
            "camera",
            ResourceKind::Uniform(buffer_layouts::CAMERA_NAME),
            None,
        ),
        Resource::new(
            1,
            ShaderStages::fragment(),
            "lighting",
            ResourceKind::Uniform(buffer_layouts::LIGHTING_NAME),
            None,
        ),
        Resource::new(
            2,
            ShaderStages::fragment(),
            "materials",
            ResourceKind::StorageReadArray(openpbr::OPENPBR_WGSL_NAME),
            None,
        ),
        Resource::new(3, ShaderStages::fragment(), "albedo_tex", ResourceKind::TextureFloat, None),
        Resource::new(4, ShaderStages::fragment(), "normal_tex", ResourceKind::TextureFloat, None),
        Resource::new(
            5,
            ShaderStages::fragment(),
            "material_id_tex",
            ResourceKind::TextureUint,
            None,
        ),
        Resource::new(
            6,
            ShaderStages::fragment(),
            "world_pos_tex",
            ResourceKind::TextureFloat,
            None,
        ),
        Resource::new(
            7,
            ShaderStages::fragment(),
            "mat_params_tex",
            ResourceKind::TextureFloat,
            None,
        ),
        Resource::new(8, ShaderStages::fragment(), "depth_tex", ResourceKind::TextureDepth, None),
        Resource::new(
            9,
            ShaderStages::fragment(),
            "lighting_sampler",
            ResourceKind::Sampler,
            None,
        ),
    ];
    assert(table@ =~= lighting_rows());
    table
}

/// The vertex entry point.
pub open spec fn vertex_entry_text() -> Seq<char> {
    source::entry_text(
        "@vertex"@,
        VERTEX_ENTRY_POINT@,
        "@builtin(vertex_index) idx: u32"@,
        interface::HDR_FRAGMENT_OUT_NAME@,
        VERTEX_BODY@,
    )
}

/// The vertex entry point.
pub fn vertex_entry() -> (out: String)
    ensures
        out@ == vertex_entry_text(),
{
    source::entry_source(
        "@vertex",
        VERTEX_ENTRY_POINT,
        "@builtin(vertex_index) idx: u32",
        interface::HDR_FRAGMENT_OUT_NAME,
        VERTEX_BODY,
    )
}

/// Body of the fragment entry point.
pub open spec fn fragment_body_text() -> Seq<char> {
    GBUFFER_READ@ + shading::shading_text(TANGENTS@)
}

/// Body of the fragment entry point.
fn fragment_body() -> (out: String)
    ensures
        out@ == fragment_body_text(),
{
    let mut out: String = GBUFFER_READ.to_owned();
    shading::push_shading(&mut out, TANGENTS);
    out
}

/// The fragment entry point.
pub open spec fn fragment_entry_text() -> Seq<char> {
    source::entry_text(
        "@fragment"@,
        FRAGMENT_ENTRY_POINT@,
        "@location(0) uv: vec2<f32>"@,
        "@location(0) vec4<f32>"@,
        fragment_body_text(),
    )
}

/// The fragment entry point.
pub fn fragment_entry() -> (out: String)
    ensures
        out@ == fragment_entry_text(),
{
    source::entry_source(
        "@fragment",
        FRAGMENT_ENTRY_POINT,
        "@location(0) uv: vec2<f32>",
        "@location(0) vec4<f32>",
        fragment_body().as_str(),
    )
}

/// Buffers, material and bindings.
pub open spec fn header_text() -> Seq<char> {
    assembly::closed_decl(
        buffer_layouts::struct_text(buffer_layouts::CAMERA_NAME@, buffer_layouts::CAMERA@),
    ) + assembly::closed_decl(
        buffer_layouts::struct_text(buffer_layouts::LIGHT_NAME@, buffer_layouts::LIGHT@),
    ) + assembly::closed_decl(
        buffer_layouts::struct_text(buffer_layouts::LIGHTING_NAME@, buffer_layouts::LIGHTING@),
    ) + openpbr::openpbr_text() + shaders::decls_text(lighting_rows(), BINDINGS@)
}

/// Buffers, material and bindings.
fn header() -> (out: String)
    ensures
        out@ == header_text(),
{
    let table = lighting_resources();
    proof {
        shaders::lemma_numbered(table@);
    }
    let camera = buffer_layouts::struct_source(
        buffer_layouts::CAMERA_NAME,
        &buffer_layouts::CAMERA,
    );
    let light = buffer_layouts::struct_source(buffer_layouts::LIGHT_NAME, &buffer_layouts::LIGHT);
    let lighting = buffer_layouts::struct_source(
        buffer_layouts::LIGHTING_NAME,
        &buffer_layouts::LIGHTING,
    );
    let mut out: String = wgsl_decl(camera.as_str());
    out.append(wgsl_decl(light.as_str()).as_str());
    out.append(wgsl_decl(lighting.as_str()).as_str());
    out.append(openpbr::openpbr_material_decl().as_str());
    out.append(resource_decls(&table, &BINDINGS).as_str());
    out
}

/// The fragment module.
pub open spec fn lighting_text() -> Seq<char> {
    header_text() + "\n"@ + helpers::consts_text() + "\n"@ + text::joined(
        helpers::lighting_decode(),
        "\n"@,
    ) + "\n"@ + text::joined(helpers::shared_helpers(), "\n"@) + "\n"@ + fragment_entry_text()
        + "\n"@ + text::joined(math::kernel_texts(math::LIGHTING_KERNELS@), "\n"@)
}

/// The fragment module: header, constants, g-buffer decoding, evaluators, fragment stage and
/// kernels.
pub fn wgsl_source() -> (out: String)
    ensures
        out@ == lighting_text(),
{
    let kernels = math::sources(&math::LIGHTING_KERNELS);
    let mut out: String = header();
    out.append("\n");
    out.append(helpers::wgsl_consts().as_str());
    out.append("\n");
    out.append(helpers::wgsl_lighting_decode().as_str());
    out.append("\n");
    out.append(helpers::wgsl_shared_helpers().as_str());
    out.append("\n");
    out.append(fragment_entry().as_str());
    out.append("\n");
    out.append(text::join(&kernels, "\n").as_str());
    out
}

/// The vertex module.
pub open spec fn lighting_vertex_text() -> Seq<char> {
    "\n"@ + quad::const_block_text("QUAD"@, "UVS"@, quad::STANDARD_QUAD@, quad::STANDARD_UVS@)
        + assembly::closed_decl(
        interface::interface_text(interface::HDR_FRAGMENT_OUT_NAME@, interface::HDR_FRAGMENT_OUT@),
    ) + vertex_entry_text()
}

/// The vertex module: quad, varyings and vertex stage.
pub fn wgsl_vertex_source() -> (out: String)
    ensures
        out@ == lighting_vertex_text(),
{
    let varyings = interface::interface_source(
        interface::HDR_FRAGMENT_OUT_NAME,
        &interface::HDR_FRAGMENT_OUT,
    );
    let mut out: String = "\n".to_owned();
    out.append(
        quad::const_block("QUAD", "UVS", &quad::STANDARD_QUAD, &quad::STANDARD_UVS).as_str(),
    );
    out.append(wgsl_decl(varyings.as_str()).as_str());
    out.append(vertex_entry().as_str());
    out
}

/// The fragment module, for validation.
pub fn wgsl_source_static() -> (out: String)
    ensures
        out@ == lighting_text(),
{
    wgsl_source()
}

} // verus!
