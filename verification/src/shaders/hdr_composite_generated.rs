//! The composite shader: mixes the lit layers, adds bloom and maps tones.
use vstd::prelude::*;
#[allow(unused_imports)]
use vstd::string::*;

use crate::shaders;
use crate::shaders::assembly;
use crate::shaders::assembly::wgsl_decl;
use crate::shaders::bloom_generated;
use crate::shaders::buffer_layouts;
use crate::shaders::interface;
use crate::shaders::math;
use crate::shaders::quad;
use crate::shaders::source;
use crate::shaders::{resource_decls, Resource, ResourceKind, ShaderStages};

verus! {

/// Name of the vertex entry point.
pub const VERTEX_ENTRY_POINT: &'static str = "vs_main";

/// Name of the fragment entry point.
pub const FRAGMENT_ENTRY_POINT: &'static str = "fs_main";

/// Bindings that the fragment module declares.
pub const BINDINGS: [u32; 5] = [0, 1, 2, 3, 4];

/// Constants that the vertex stages read.
pub const VERTEX_GLOBALS: [&'static str; 2] = ["quad", "uvs"];

/// Globals that the fragment stage reads.
pub const FRAGMENT_GLOBALS: [&'static str; 5] = [
    "deferred_tex",
    "forward_tex",
    "bloom_tex",
    "composite_sampler",
    "bloom_params",
];

/// Body of the vertex entry point of the vertex module.
pub const VERTEX_BODY: &'static str = "return CompositeVertexOutput(quad[vertex_index], uvs[vertex_index]) /* clip_position, uv */;";

/// Body of the vertex entry point of the fragment module.
pub const QUAD_VERTEX_BODY: &'static str = "return QuadVertexOutput(quad[vertex_index], uvs[vertex_index]) /* clip_position, uv */;";

/// Body of the fragment entry point. The mode selects the layers: the deferred layer, the
/// forward layer alone (1) or both (2).
pub const FRAGMENT_BODY: &'static str = "let deferred_color = textureSample(deferred_tex, composite_sampler, input.uv).rgb; \
    let forward_color = textureSample(forward_tex, composite_sampler, input.uv).rgba; \
    var combined = deferred_color; \
    if (bloom_params.mode == 1) { combined = forward_color.rgb * forward_color.a; } \
    else { if (bloom_params.mode == 2) { \
    combined = deferred_color + forward_color.rgb * forward_color.a; } } \
    let bloom = textureSample(bloom_tex, composite_sampler, input.uv).rgb; \
    let tonemapped = aces_tonemap(combined + bloom * bloom_params.intensity); \
    return vec4<f32>(tonemapped, 1.0);";

/// Resources of the composite pass.
pub open spec fn hdr_rows() -> Seq<Resource> {
    seq![
        shaders::row(
            0,
            shaders::fragment_stage(),
            "deferred_tex",
            ResourceKind::TextureFloat,
            None,
        ),
        shaders::row(
            1,
            shaders::fragment_stage(),
            "forward_tex",
            ResourceKind::TextureFloat,
            None,
        ),
        shaders::row(
            2,
            shaders::fragment_stage(),
            "composite_sampler",
            ResourceKind::Sampler,
            None,
        ),
        shaders::row(3, shaders::fragment_stage(), "bloom_tex", ResourceKind::TextureFloat, None),
        shaders::row(
            4,
            shaders::fragment_stage(),
            "bloom_params",
            ResourceKind::Uniform(buffer_layouts::BLOOM_NAME),
            Some(bloom_generated::BLOOM_UNIFORM_BYTES),
        ),
    ]
}

/// Resources of the composite pass.
pub fn hdr_resources() -> (table: [Resource; 5])
    ensures
        table@ == hdr_rows(),
        shaders::numbered(table@),
        shaders::sizes_ok(table@),
{
    let table = [
        Resource::new(
            0,
            ShaderStages::fragment(),
            "deferred_tex",
            ResourceKind::TextureFloat,
            None,
        ),
        Resource::new(
            1,
            ShaderStages::fragment(),
            "forward_tex",
            ResourceKind::TextureFloat,
            None,
        ),
        Resource::new(
            2,
            ShaderStages::fragment(),
            "composite_sampler",
            ResourceKind::Sampler,
            None,
        ),
        Resource::new(3, ShaderStages::fragment(), "bloom_tex", ResourceKind::TextureFloat, None),
        Resource::new(
            4,
            ShaderStages::fragment(),
            "bloom_params",
            ResourceKind::Uniform(buffer_layouts::BLOOM_NAME),
            Some(bloom_generated::BLOOM_UNIFORM_BYTES),
        ),
    ];
    assert(table@ =~= hdr_rows());
    table
}

/// The vertex entry point of the vertex module.
pub open spec fn vertex_entry_text() -> Seq<char> {
    source::entry_text(
        "@vertex"@,
        VERTEX_ENTRY_POINT@,
        "@builtin(vertex_index) vertex_index: u32"@,
        interface::HDR_VERTEX_OUTPUT_NAME@,
        VERTEX_BODY@,
    )
}

/// The vertex entry point of the vertex module.
pub fn vertex_entry() -> (out: String)
    ensures
        out@ == vertex_entry_text(),
{
    source::entry_source(
        "@vertex",
        VERTEX_ENTRY_POINT,
        "@builtin(vertex_index) vertex_index: u32",
        interface::HDR_VERTEX_OUTPUT_NAME,
        VERTEX_BODY,
    )
}

/// The vertex entry point of the fragment module.
pub open spec fn quad_vertex_entry_text() -> Seq<char> {
    source::entry_text(
        "@vertex"@,
        VERTEX_ENTRY_POINT@,
        "@builtin(vertex_index) vertex_index: u32"@,
        interface::HDR_FRAGMENT_OUT_NAME@,
        QUAD_VERTEX_BODY@,
    )
}

/// The vertex entry point of the fragment module.
pub fn quad_vertex_entry() -> (out: String)
    ensures
        out@ == quad_vertex_entry_text(),
{
    source::entry_source(
        "@vertex",
        VERTEX_ENTRY_POINT,
        "@builtin(vertex_index) vertex_index: u32",
        interface::HDR_FRAGMENT_OUT_NAME,
        QUAD_VERTEX_BODY,
    )
}

/// The fragment entry point.
pub open spec fn fragment_entry_text() -> Seq<char> {
    source::entry_text(
        "@fragment"@,
        FRAGMENT_ENTRY_POINT@,
        "input: QuadVertexOutput"@,
        "@location(0) vec4<f32>"@,
        FRAGMENT_BODY@,
    )
}

/// The fragment entry point.
pub fn fragment_entry() -> (out: String)
    ensures
        out@ == fragment_entry_text(),
{
    source::entry_source(
        "@fragment",
        FRAGMENT_ENTRY_POINT,
        "input: QuadVertexOutput",
        "@location(0) vec4<f32>",
        FRAGMENT_BODY,
    )
}

/// Quad constants of both modules.
pub open spec fn quad_text() -> Seq<char> {
    quad::const_block_text("quad"@, "uvs"@, quad::STANDARD_QUAD@, quad::STANDARD_UVS@)
}

/// Quad constants of both modules.
fn quad_consts() -> (out: String)
    ensures
        out@ == quad_text(),
{
    quad::const_block("quad", "uvs", &quad::STANDARD_QUAD, &quad::STANDARD_UVS)
}

/// The vertex module.
pub open spec fn hdr_vertex_text() -> Seq<char> {
    "\n"@ + quad_text() + "\n"@ + assembly::closed_decl(
        interface::interface_text(
            interface::HDR_VERTEX_OUTPUT_NAME@,
            interface::HDR_VERTEX_OUTPUT@,
        ),
    ) + "\n"@ + vertex_entry_text()
}

/// The vertex module: quad, varyings and vertex stage.
pub fn wgsl_vertex_source() -> (out: String)
    ensures
        out@ == hdr_vertex_text(),
{
    let varyings = interface::interface_source(
        interface::HDR_VERTEX_OUTPUT_NAME,
        &interface::HDR_VERTEX_OUTPUT,
    );
    let mut out: String = "\n".to_owned();
    out.append(quad_consts().as_str());
    out.append("\n");
    out.append(wgsl_decl(varyings.as_str()).as_str());
    out.append("\n");
    out.append(vertex_entry().as_str());
    out
}

/// Bindings and quad constants of the fragment module.
pub open spec fn head_text() -> Seq<char> {
    shaders::decls_text(hdr_rows(), BINDINGS@) + "\n"@ + quad_text()
}

/// Bindings and quad constants of the fragment module.
fn head() -> (out: String)
    ensures
        out@ == head_text(),
{
    let table = hdr_resources();
    proof {
        shaders::lemma_numbered(table@);
    }
    let mut out: String = resource_decls(&table, &BINDINGS);
    out.append("\n");
    out.append(quad_consts().as_str());
    out
}

/// The fragment module.
pub open spec fn hdr_text() -> Seq<char> {
    "\n"@ + assembly::closed_decl(
        buffer_layouts::struct_text(buffer_layouts::CAMERA_NAME@, buffer_layouts::CAMERA@),
    ) + "\n"@ + assembly::closed_decl(
        buffer_layouts::struct_text(buffer_layouts::BLOOM_NAME@, buffer_layouts::BLOOM@),
    ) + "\n"@ + head_text() + "\n"@ + assembly::closed_decl(
        interface::interface_text(interface::HDR_FRAGMENT_OUT_NAME@, interface::HDR_FRAGMENT_OUT@),
    ) + "\n"@ + quad_vertex_entry_text() + "\n"@ + fragment_entry_text() + "\n"@
        + math::ACES_TONEMAP@ + "\n"@ + math::LUMINANCE@
}

/// The fragment module: buffers, bindings, quad, varyings, both stages and their kernels.
pub fn wgsl_source() -> (out: String)
    ensures
        out@ == hdr_text(),
{
    let camera = buffer_layouts::struct_source(
        buffer_layouts::CAMERA_NAME,
        &buffer_layouts::CAMERA,
    );
    let params = buffer_layouts::struct_source(buffer_layouts::BLOOM_NAME, &buffer_layouts::BLOOM);
    let varyings = interface::interface_source(
        interface::HDR_FRAGMENT_OUT_NAME,
        &interface::HDR_FRAGMENT_OUT,
    );
    let mut out: String = "\n".to_owned();
    out.append(wgsl_decl(camera.as_str()).as_str());
    out.append("\n");
    out.append(wgsl_decl(params.as_str()).as_str());
    out.append("\n");
    out.append(head().as_str());
    out.append("\n");
    out.append(wgsl_decl(varyings.as_str()).as_str());
    out.append("\n");
    out.append(quad_vertex_entry().as_str());
    out.append("\n");
    out.append(fragment_entry().as_str());
    out.append("\n");
    out.append(math::ACES_TONEMAP);
    out.append("\n");
    out.append(math::LUMINANCE);
    out
}

/// The fragment module, for validation.
pub fn wgsl_source_static() -> (out: String)
    ensures
        out@ == hdr_text(),
{
    wgsl_source()
}

} // verus!
