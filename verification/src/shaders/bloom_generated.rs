//! The bloom shader: bright pass and resampling over a full-screen quad.
use vstd::prelude::*;
#[allow(unused_imports)]
use vstd::string::*;

use crate::shaders;
use crate::shaders::assembly;
use crate::shaders::assembly::wgsl_decl;
use crate::shaders::buffer_layouts;
use crate::shaders::interface;
use crate::shaders::math;
use crate::shaders::quad;
use crate::shaders::source;
use crate::shaders::{resource_decls, Resource, ResourceKind, ShaderStages};

verus! {

/// Name of the vertex entry point.
pub const VERTEX_ENTRY_POINT: &'static str = "vs_main";

/// Name of the fragment entry point.
pub const FRAGMENT_ENTRY_POINT: &'static str = "fs_main";

/// Bytes of the parameter buffer, padding included.
pub const BLOOM_UNIFORM_BYTES: u64 = 16;

/// Bindings that the shader declares.
pub const BINDINGS: [u32; 3] = [0, 1, 2];

/// Globals that the fragment stage reads.
pub const FRAGMENT_GLOBALS: [&'static str; 3] = ["src_tex", "src_sampler", "bloom_params"];

/// Body of the vertex entry point.
pub const VERTEX_BODY: &'static str = "return BloomVertexOutput(QUAD[idx], UVS[idx]) /* clip_position, uv */;";

/// Body of the fragment entry point.
pub const FRAGMENT_BODY: &'static str = "let color = textureSample(src_tex, src_sampler, uv).rgb; \
    let luma = luminance(color); \
    let keep = smoothstep(bloom_params.threshold, bloom_params.threshold + 0.05, luma); \
    return vec4<f32>(color * keep, 1.0);";

/// Resources of the bloom pass.
pub open spec fn bloom_rows() -> Seq<Resource> {
    seq![
        shaders::row(0, shaders::fragment_stage(), "src_tex", ResourceKind::TextureFloat, None),
        shaders::row(1, shaders::fragment_stage(), "src_sampler", ResourceKind::Sampler, None),
        shaders::row(
            2,
            shaders::fragment_stage(),
            "bloom_params",
            ResourceKind::Uniform(buffer_layouts::BLOOM_NAME),
            Some(BLOOM_UNIFORM_BYTES),
        ),
    ]
}

/// Resources of the bloom pass.
pub fn bloom_resources() -> (table: [Resource; 3])
    ensures
        table@ == bloom_rows(),
        shaders::numbered(table@),
        shaders::sizes_ok(table@),
{
    let table = [
        Resource::new(0, ShaderStages::fragment(), "src_tex", ResourceKind::TextureFloat, None),
        Resource::new(1, ShaderStages::fragment(), "src_sampler", ResourceKind::Sampler, None),
        Resource::new(
            2,
            ShaderStages::fragment(),
            "bloom_params",
            ResourceKind::Uniform(buffer_layouts::BLOOM_NAME),
            Some(BLOOM_UNIFORM_BYTES),
        ),
    ];
    assert(table@ =~= bloom_rows());
    table
}

/// The vertex entry point.
pub open spec fn vertex_entry_text() -> Seq<char> {
    source::entry_text(
        "@vertex"@,
        VERTEX_ENTRY_POINT@,
        "@builtin(vertex_index) idx: u32"@,
        interface::BLOOM_VERTEX_OUT_NAME@,
        VERTEX_BODY@,
    )
}

/// The vertex entry point.
pub fn vertex_entry() -> (out: String)
    ensures
        out@ == vertex_entry_text(),
{
    source::entry_source(
        "@vertex",
        VERTEX_ENTRY_POINT,
        "@builtin(vertex_index) idx: u32",
        interface::BLOOM_VERTEX_OUT_NAME,
        VERTEX_BODY,
    )
}

/// The fragment entry point.
pub open spec fn fragment_entry_text() -> Seq<char> {
    source::entry_text(
        "@fragment"@,
        FRAGMENT_ENTRY_POINT@,
        "@location(0) uv: vec2<f32>"@,
        "@location(0) vec4<f32>"@,
        FRAGMENT_BODY@,
    )
}

/// The fragment entry point.
pub fn fragment_entry() -> (out: String)
    ensures
        out@ == fragment_entry_text(),
{
    source::entry_source(
        "@fragment",
        FRAGMENT_ENTRY_POINT,
        "@location(0) uv: vec2<f32>",
        "@location(0) vec4<f32>",
        FRAGMENT_BODY,
    )
}

/// Bindings and quad constants.
pub open spec fn head_text() -> Seq<char> {
    shaders::decls_text(bloom_rows(), BINDINGS@) + "\n"@ + quad::const_block_text(
        "QUAD"@,
        "UVS"@,
        quad::STANDARD_QUAD@,
        quad::STANDARD_UVS@,
    )
}

/// Bindings and quad constants.
fn head() -> (out: String)
    ensures
        out@ == head_text(),
{
    let table = bloom_resources();
    proof {
        shaders::lemma_numbered(table@);
    }
    let mut out: String = resource_decls(&table, &BINDINGS);
    out.append("\n");
    out.append(
        quad::const_block("QUAD", "UVS", &quad::STANDARD_QUAD, &quad::STANDARD_UVS).as_str(),
    );
    out
}

/// The bloom module.
pub open spec fn bloom_text() -> Seq<char> {
    "\n"@ + assembly::closed_decl(
        buffer_layouts::struct_text(buffer_layouts::BLOOM_NAME@, buffer_layouts::BLOOM@),
    ) + "\n"@ + head_text() + "\n"@ + assembly::closed_decl(
        interface::interface_text(interface::BLOOM_VERTEX_OUT_NAME@, interface::BLOOM_VERTEX_OUT@),
    ) + "\n"@ + vertex_entry_text() + "\n"@ + math::LUMINANCE@ + "\n"@ + fragment_entry_text()
        + "\n"@
}

/// The bloom module: parameters, bindings, quad, vertex stage, luminance and fragment stage.
pub fn wgsl_source() -> (out: String)
    ensures
        out@ == bloom_text(),
{
    let params = buffer_layouts::struct_source(buffer_layouts::BLOOM_NAME, &buffer_layouts::BLOOM);
    let varyings = interface::interface_source(
        interface::BLOOM_VERTEX_OUT_NAME,
        &interface::BLOOM_VERTEX_OUT,
    );
    let mut out: String = "\n".to_owned();
    out.append(wgsl_decl(params.as_str()).as_str());
    out.append("\n");
    out.append(head().as_str());
    out.append("\n");
    out.append(wgsl_decl(varyings.as_str()).as_str());
    out.append("\n");
    out.append(vertex_entry().as_str());
    out.append("\n");
    out.append(math::LUMINANCE);
    out.append("\n");
    out.append(fragment_entry().as_str());
    out.append("\n");
    out
}

/// The bloom module, for validation.
pub fn wgsl_source_static() -> (out: String)
    ensures
        out@ == bloom_text(),
{
    wgsl_source()
}

} // verus!
