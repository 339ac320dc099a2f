//! The forward shader: full shading of drawn geometry.
use vstd::prelude::*;
#[allow(unused_imports)]
use vstd::string::*;

use crate::shaders;
use crate::shaders::assembly;
use crate::shaders::assembly::{wgsl_decl, ShaderModule};
use crate::shaders::buffer_layouts;
use crate::shaders::gbuffer_generated;
use crate::shaders::helpers;
use crate::shaders::interface;
use crate::shaders::math;
use crate::shaders::openpbr;
use crate::shaders::shading;
use crate::shaders::source;
use crate::shaders::{Resource, ResourceKind, ShaderStages};
use crate::text;

verus! {

/// Name of the fragment entry point.
pub const FRAGMENT_ENTRY_POINT: &'static str = "fs_main";

/// Bindings that the fragment module declares.
pub const FRAGMENT_BINDINGS: [u32; 3] = [0, 2, 3];

/// Globals that the fragment stage reads.
pub const FRAGMENT_GLOBALS: [&'static str; 3] = ["materials", "camera", "lighting"];

/// Start of the fragment body: the interpolated surface.
pub const SURFACE: &'static str = "let mat = materials[input.material_index]; \
    let n = normalize(input.world_normal); \
    let v = normalize(camera.camera_pos.xyz - input.world_position); \
    let nov = max(dot(n, v), EPS); \
    let t = normalize(input.world_tangent); \
    let b = cross(n, t); ";

/// Resources of the forward pass.
pub open spec fn pbr_rows() -> Seq<Resource> {
    seq![
        shaders::row(
            0,
            shaders::both_stages(),
            "camera",
            ResourceKind::Uniform(buffer_layouts::CAMERA_NAME),
            None,
        ),
        shaders::row(
            1,
            shaders::vertex_stage(),
            "per_objects",
            ResourceKind::StorageReadArray(buffer_layouts::PER_OBJECT_NAME),
            None,
        ),
        shaders::row(
            2,
            shaders::fragment_stage(),
            "materials",
            ResourceKind::StorageReadArray(openpbr::OPENPBR_WGSL_NAME),
            None,
        ),
        shaders::row(
            3,
            shaders::fragment_stage(),
            "lighting",
            ResourceKind::Uniform(buffer_layouts::LIGHTING_NAME),
            None,
        ),
    ]
}

/// Resources of the forward pass.
pub fn pbr_resources() -> (table: [Resource; 4])
    ensures
        table@ == pbr_rows(),
        shaders::numbered(table@),
        shaders::sizes_ok(table@),
{
    let table = [
        Resource::new(
            0,
            ShaderStages::vertex_fragment(),
            "camera",
            ResourceKind::Uniform(buffer_layouts::CAMERA_NAME),
            None,
        ),
        Resource::new(
            1,
            ShaderStages::vertex(),
            "per_objects",
            ResourceKind::StorageReadArray(buffer_layouts::PER_OBJECT_NAME),
            None,
        ),
        Resource::new(
            2,
            ShaderStages::fragment(),
            "materials",
            ResourceKind::StorageReadArray(openpbr::OPENPBR_WGSL_NAME),
            None,
        ),
        Resource::new(
            3,
            ShaderStages::fragment(),
            "lighting",
            ResourceKind::Uniform(buffer_layouts::LIGHTING_NAME),
            None,
        ),
    ];
    assert(table@ =~= pbr_rows());
    table
}

/// Body of the fragment entry point.
pub open spec fn fragment_body_text() -> Seq<char> {
    SURFACE@ + shading::shading_text(""@)
}

/// Body of the fragment entry point.
fn fragment_body() -> (out: String)
    ensures
        out@ == fragment_body_text(),
{
    let mut out: String = SURFACE.to_owned();
    shading::push_shading(&mut out, "");
    out
}

/// The fragment entry point.
pub open spec fn fs_main_text() -> Seq<char> {
    source::entry_text(
        "@fragment"@,
        FRAGMENT_ENTRY_POINT@,
        "input: FragmentInput"@,
        "@location(0) vec4<f32>"@,
        fragment_body_text(),
    )
}

/// The fragment entry point.
pub fn fs_main() -> (out: String)
    ensures
        out@ == fs_main_text(),
{
    source::entry_source(
        "@fragment",
        FRAGMENT_ENTRY_POINT,
        "input: FragmentInput",
        "@location(0) vec4<f32>",
        fragment_body().as_str(),
    )
}

/// The vertex module, shared with the g-buffer pass.
pub fn wgsl_vertex_source() -> (out: String)
    ensures
        out@ == gbuffer_generated::gbuffer_vertex_text(),
{
    gbuffer_generated::wgsl_vertex_source()
}

/// The pieces of the fragment module.
pub open spec fn pbr_module() -> assembly::ModuleView {
    assembly::ModuleView::empty().with_decl(
        buffer_layouts::struct_text(buffer_layouts::CAMERA_NAME@, buffer_layouts::CAMERA@),
    ).with_decl(
        assembly::closed_decl(
            buffer_layouts::struct_text(buffer_layouts::LIGHT_NAME@, buffer_layouts::LIGHT@),
        ),
    ).with_decl(
        assembly::closed_decl(
            buffer_layouts::struct_text(buffer_layouts::LIGHTING_NAME@, buffer_layouts::LIGHTING@),
        ),
    ).with_decl(openpbr::openpbr_text()).with_resources(
        shaders::decls_text(pbr_rows(), FRAGMENT_BINDINGS@),
    ).with_decl(
        assembly::closed_decl(
            interface::interface_text(
                interface::GBUFFER_FRAGMENT_INPUT_NAME@,
                interface::GBUFFER_FRAGMENT_INPUT@,
            ),
        ),
    ).with_consts(helpers::consts_text()).with_helper(
        text::joined(helpers::shared_helpers(), "\n"@),
    ).with_entry(fs_main_text()).with_helpers(math::kernel_texts(math::PBR_KERNELS@))
}

/// The fragment module.
pub open spec fn pbr_text() -> Seq<char> {
    assembly::emitted(pbr_module().pieces())
}

/// The fragment module: buffers, material, bindings, constants, evaluators, kernels and
/// fragment stage.
pub fn wgsl_source() -> (out: String)
    ensures
        out@ == pbr_text(),
{
    let table = pbr_resources();
    proof {
        shaders::lemma_numbered(table@);
    }
    let camera = buffer_layouts::struct_source(
        buffer_layouts::CAMERA_NAME,
        &buffer_layouts::CAMERA,
    );
    let light = buffer_layouts::struct_source(buffer_layouts::LIGHT_NAME, &buffer_layouts::LIGHT);
    let lighting = buffer_layouts::struct_source(
        buffer_layouts::LIGHTING_NAME,
        &buffer_layouts::LIGHTING,
    );
    let varyings = interface::interface_source(
        interface::GBUFFER_FRAGMENT_INPUT_NAME,
        &interface::GBUFFER_FRAGMENT_INPUT,
    );
    let module = ShaderModule::new().decl(camera.as_str()).decl(
        wgsl_decl(light.as_str()).as_str(),
    ).decl(wgsl_decl(lighting.as_str()).as_str()).decl(
        openpbr::openpbr_material_decl().as_str(),
    ).resources(&table, &FRAGMENT_BINDINGS).decl(wgsl_decl(varyings.as_str()).as_str()).consts(
        helpers::wgsl_consts().as_str(),
    ).helper(helpers::wgsl_shared_helpers().as_str()).entry(fs_main().as_str()).helpers(
        math::sources(&math::PBR_KERNELS),
    );
    module.emit()
}

/// The fragment module, for validation.
pub fn wgsl_source_static() -> (out: String)
    ensures
        out@ == pbr_text(),
{
    wgsl_source()
}

} // verus!
