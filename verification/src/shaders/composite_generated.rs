//! The shader that mixes the user interface over the lit image.
//!
//! The module carries its two entry points under the names of the pass convention and, for
//! pipelines that ask for them, under the short names.
use vstd::prelude::*;
#[allow(unused_imports)]
use vstd::string::*;

use crate::shaders;
use crate::shaders::assembly;
use crate::shaders::assembly::wgsl_decl;
use crate::shaders::interface;
use crate::shaders::math;
use crate::shaders::quad;
use crate::shaders::source;
use crate::shaders::{resource_decls, Resource, ResourceKind, ShaderStages};

verus! {

/// Name of the vertex entry point.
pub const VERTEX_ENTRY_POINT: &'static str = "vs_main";

/// Name of the fragment entry point.
pub const FRAGMENT_ENTRY_POINT: &'static str = "fs_main";

/// Short name of the vertex entry point.
pub const SHORT_VERTEX_ENTRY_POINT: &'static str = "vs";

/// Short name of the fragment entry point.
pub const SHORT_FRAGMENT_ENTRY_POINT: &'static str = "fs";

/// Bindings that the shader declares.
pub const BINDINGS: [u32; 4] = [0, 1, 2, 3];

/// Globals that the fragment stage reads.
pub const FRAGMENT_GLOBALS: [&'static str; 4] = ["pbr_tex", "pbr_sampler", "ui_tex", "ui_sampler"];

/// Body of the vertex entry point.
pub const VERTEX_BODY: &'static str = "var out: VertexOutput; \
    out.position = quad[vertex_index]; \
    out.uv = uvs[vertex_index]; \
    return out;";

/// Body of the fragment entry point.
pub const FRAGMENT_BODY: &'static str = "let bg = textureSampleLevel(pbr_tex, pbr_sampler, input.uv, 0.0); \
    let ui = textureSampleLevel(ui_tex, ui_sampler, input.uv, 0.0); \
    let ui_linear = srgb_to_linear(ui.rgb); \
    return vec4<f32>(mix(bg.rgb, ui_linear, ui.a), 1.0);";

/// Resources of the pass.
pub open spec fn composite_rows() -> Seq<Resource> {
    seq![
        shaders::row(0, shaders::fragment_stage(), "pbr_tex", ResourceKind::TextureFloat, None),
        shaders::row(1, shaders::fragment_stage(), "pbr_sampler", ResourceKind::Sampler, None),
        shaders::row(2, shaders::fragment_stage(), "ui_tex", ResourceKind::TextureFloat, None),
        shaders::row(3, shaders::fragment_stage(), "ui_sampler", ResourceKind::Sampler, None),
    ]
}

/// Resources of the pass.
pub fn composite_resources() -> (table: [Resource; 4])
    ensures
        table@ == composite_rows(),
        shaders::numbered(table@),
        shaders::sizes_ok(table@),
{
    let table = [
        Resource::new(0, ShaderStages::fragment(), "pbr_tex", ResourceKind::TextureFloat, None),
        Resource::new(1, ShaderStages::fragment(), "pbr_sampler", ResourceKind::Sampler, None),
        Resource::new(2, ShaderStages::fragment(), "ui_tex", ResourceKind::TextureFloat, None),
        Resource::new(3, ShaderStages::fragment(), "ui_sampler", ResourceKind::Sampler, None),
    ];
    assert(table@ =~= composite_rows());
    table
}

/// The vertex entry point under a name.
pub open spec fn vertex_entry_text(name: Seq<char>) -> Seq<char> {
    source::entry_text(
        "@vertex"@,
        name,
        "@builtin(vertex_index) vertex_index: u32"@,
        interface::UI_COMPOSITE_OUT_NAME@,
        VERTEX_BODY@,
    )
}

/// The vertex entry point under a name.
pub fn vertex_entry(name: &str) -> (out: String)
    ensures
        out@ == vertex_entry_text(name@),
{
    source::entry_source(
        "@vertex",
        name,
        "@builtin(vertex_index) vertex_index: u32",
        interface::UI_COMPOSITE_OUT_NAME,
        VERTEX_BODY,
    )
}

/// The fragment entry point under a name.
pub open spec fn fragment_entry_text(name: Seq<char>) -> Seq<char> {
    source::entry_text(
        "@fragment"@,
        name,
        "input: VertexOutput"@,
        "@location(0) vec4<f32>"@,
        FRAGMENT_BODY@,
    )
}

/// The fragment entry point under a name.
pub fn fragment_entry(name: &str) -> (out: String)
    ensures
        out@ == fragment_entry_text(name@),
{
    source::entry_source(
        "@fragment",
        name,
        "input: VertexOutput",
        "@location(0) vec4<f32>",
        FRAGMENT_BODY,
    )
}

/// Bindings and quad constants.
pub open spec fn head_text() -> Seq<char> {
    shaders::decls_text(composite_rows(), BINDINGS@) + "\n"@ + quad::const_block_text(
        "quad"@,
        "uvs"@,
        quad::COMPOSITE_QUAD@,
        quad::COMPOSITE_UVS@,
    )
}

/// Bindings and quad constants.
fn head() -> (out: String)
    ensures
        out@ == head_text(),
{
    let table = composite_resources();
    proof {
        shaders::lemma_numbered(table@);
    }
    let mut out: String = resource_decls(&table, &BINDINGS);
    out.append("\n");
    out.append(
        quad::const_block("quad", "uvs", &quad::COMPOSITE_QUAD, &quad::COMPOSITE_UVS).as_str(),
    );
    out
}

/// The module.
pub open spec fn composite_text() -> Seq<char> {
    "\n"@ + assembly::closed_decl(
        interface::interface_text(interface::UI_COMPOSITE_OUT_NAME@, interface::UI_COMPOSITE_OUT@),
    ) + "\n"@ + head_text() + "\n"@ + vertex_entry_text(SHORT_VERTEX_ENTRY_POINT@) + "\n"@
        + vertex_entry_text(VERTEX_ENTRY_POINT@) + "\n"@ + math::SRGB_TO_LINEAR@ + "\n"@
        + fragment_entry_text(SHORT_FRAGMENT_ENTRY_POINT@) + "\n"@ + fragment_entry_text(
        FRAGMENT_ENTRY_POINT@,
    ) + "\n"@
}

/// The module: varyings, bindings, quad, vertex stage, sRGB decoding and fragment stage.
pub fn wgsl_source() -> (out: String)
    ensures
        out@ == composite_text(),
{
    let varyings = interface::interface_source(
        interface::UI_COMPOSITE_OUT_NAME,
        &interface::UI_COMPOSITE_OUT,
    );
    let mut out: String = "\n".to_owned();
    out.append(wgsl_decl(varyings.as_str()).as_str());
    out.append("\n");
    out.append(head().as_str());
    out.append("\n");
    out.append(vertex_entry(SHORT_VERTEX_ENTRY_POINT).as_str());
    out.append("\n");
    out.append(vertex_entry(VERTEX_ENTRY_POINT).as_str());
    out.append("\n");
    out.append(math::SRGB_TO_LINEAR);
    out.append("\n");
    out.append(fragment_entry(SHORT_FRAGMENT_ENTRY_POINT).as_str());
    out.append("\n");
    out.append(fragment_entry(FRAGMENT_ENTRY_POINT).as_str());
    out.append("\n");
    out
}

/// The module, for validation.
pub fn wgsl_source_static() -> (out: String)
    ensures
        out@ == composite_text(),
{
    wgsl_source()
}

} // verus!
