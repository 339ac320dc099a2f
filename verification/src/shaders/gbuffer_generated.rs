//! The g-buffer shader: instance transforms and the packing of five targets.
use vstd::prelude::*;
#[allow(unused_imports)]
use vstd::string::*;

use crate::shaders;
use crate::shaders::assembly;
use crate::shaders::assembly::wgsl_decl;
use crate::shaders::buffer_layouts;
use crate::shaders::interface;
use crate::shaders::math;
use crate::shaders::openpbr;
use crate::shaders::shading;
use crate::shaders::shading::MaterialLocal;
use crate::shaders::source;
use crate::shaders::{resource_decls, Resource, ResourceKind, ShaderStages};

verus! {

/// Name of the vertex entry point.
pub const VERTEX_ENTRY_POINT: &'static str = "vs_main";

/// Name of the fragment entry point.
pub const FRAGMENT_ENTRY_POINT: &'static str = "fs_main";

/// Bindings that the vertex module declares.
pub const VERTEX_BINDINGS: [u32; 2] = [0, 1];

/// Bindings that the fragment module declares.
pub const FRAGMENT_BINDINGS: [u32; 1] = [2];

/// Globals that the vertex stage reads.
pub const VERTEX_GLOBALS: [&'static str; 2] = ["per_objects", "camera"];

/// Globals that the fragment stage reads.
pub const FRAGMENT_GLOBALS: [&'static str; 1] = ["materials"];

/// Body of the vertex entry point.
pub const VERTEX_BODY: &'static str = "let obj = per_objects[instance]; \
    let world_pos = obj.model * vec4<f32>(input.position, 1.0); \
    var world_normal = normalize((obj.normal_matrix * vec4<f32>(input.normal, 0.0)).xyz); \
    var world_tangent = normalize((obj.normal_matrix * vec4<f32>(input.tangent, 0.0)).xyz); \
    var output: VertexOutput; \
    output.clip_position = camera.view_proj * world_pos; \
    output.world_position = world_pos.xyz; \
    output.world_normal = world_normal; \
    output.uv = input.uv; \
    output.world_tangent = world_tangent; \
    output.material_index = obj.material_index; \
    return output;";

/// Start of the fragment body: material, normal and position.
pub const SURFACE: &'static str = "let mat = materials[input.material_index]; \
    let n = normalize(input.world_normal); \
    let world_pos = input.world_position; ";

/// Color of the surface.
pub const SURFACE_LOCALS: [MaterialLocal; 2] = [
    ("base_color", "base_color", "rgb"),
    ("opacity", "base_color", "a"),
];

/// Encoded normal, material and position.
pub const ENCODING: &'static str = "let normal_enc = octahedral_encode(n); \
    let material_id = input.material_index; \
    let world_pos_enc = vec2<f32>(world_pos.x, world_pos.y); ";

/// Parameters of the surface.
pub const PARAM_LOCALS: [MaterialLocal; 11] = [
    ("roughness", "specular_params", "y"),
    ("metalness", "base_params", "z"),
    ("specular_weight", "specular_params", "x"),
    ("specular_ior", "specular_params", "z"),
    ("coat_weight", "coat_params", "x"),
    ("coat_roughness", "coat_params", "y"),
    ("subsurface_weight", "subsurface_params", "x"),
    ("transmission_weight", "transmission_params", "x"),
    ("fuzz_weight", "fuzz_params", "x"),
    ("thin_film_weight", "thin_film_params", "x"),
    ("emission_luminance", "emission_params", "x"),
];

/// The five targets.
pub const PACKING: &'static str = "let mat_params = vec4<f32>(roughness, metalness, specular_ior, coat_weight); \
    var output: GBufferOutput; \
    output.albedo = vec4<f32>(base_color, opacity); \
    output.normal = normal_enc; \
    output.material_id = material_id; \
    output.world_pos = world_pos_enc; \
    output.mat_params = mat_params; \
    return output;";

/// Resources of the g-buffer pass.
pub open spec fn gbuffer_rows() -> Seq<Resource> {
    seq![
        shaders::row(
            0,
            shaders::both_stages(),
            "camera",
            ResourceKind::Uniform(buffer_layouts::CAMERA_NAME),
            None,
        ),
        shaders::row(
            1,
            shaders::vertex_stage(),
            "per_objects",
            ResourceKind::StorageReadArray(buffer_layouts::PER_OBJECT_NAME),
            None,
        ),
        shaders::row(
            2,
            shaders::fragment_stage(),
            "materials",
            ResourceKind::StorageReadArray(openpbr::OPENPBR_WGSL_NAME),
            None,
        ),
    ]
}

/// Resources of the g-buffer pass.
pub fn gbuffer_resources() -> (table: [Resource; 3])
    ensures
        table@ == gbuffer_rows(),
        shaders::numbered(table@),
        shaders::sizes_ok(table@),
{
    let table = [
        Resource::new(
            0,
            ShaderStages::vertex_fragment(),
            "camera",
            ResourceKind::Uniform(buffer_layouts::CAMERA_NAME),
            None,
        ),
        Resource::new(
            1,
            ShaderStages::vertex(),
            "per_objects",
            ResourceKind::StorageReadArray(buffer_layouts::PER_OBJECT_NAME),
            None,
        ),
        Resource::new(
            2,
            ShaderStages::fragment(),
            "materials",
            ResourceKind::StorageReadArray(openpbr::OPENPBR_WGSL_NAME),
            None,
        ),
    ];
    assert(table@ =~= gbuffer_rows());
    table
}

/// The vertex entry point.
pub open spec fn vertex_entry_text() -> Seq<char> {
    source::entry_text(
        "@vertex"@,
        VERTEX_ENTRY_POINT@,
        "input: VertexInput, @builtin(instance_index) instance: u32"@,
        interface::GBUFFER_VERTEX_OUTPUT_NAME@,
        VERTEX_BODY@,
    )
}

/// The vertex entry point.
pub fn vertex_entry() -> (out: String)
    ensures
        out@ == vertex_entry_text(),
{
    source::entry_source(
        "@vertex",
        VERTEX_ENTRY_POINT,
        "input: VertexInput, @builtin(instance_index) instance: u32",
        interface::GBUFFER_VERTEX_OUTPUT_NAME,
        VERTEX_BODY,
    )
}

/// Body of the fragment entry point.
pub open spec fn fragment_body_text() -> Seq<char> {
    SURFACE@ + shading::locals_text(SURFACE_LOCALS@) + ENCODING@ + shading::locals_text(
        PARAM_LOCALS@,
    ) + PACKING@
}

/// Body of the fragment entry point.
fn fragment_body() -> (out: String)
    ensures
        out@ == fragment_body_text(),
{
    let mut out: String = SURFACE.to_owned();
    shading::push_locals(&mut out, &SURFACE_LOCALS);
    out.append(ENCODING);
    shading::push_locals(&mut out, &PARAM_LOCALS);
    out.append(PACKING);
    out
}

/// The fragment entry point.
pub open spec fn fragment_entry_text() -> Seq<char> {
    source::entry_text(
        "@fragment"@,
        FRAGMENT_ENTRY_POINT@,
        "input: FragmentInput"@,
        interface::GBUFFER_OUTPUT_NAME@,
        fragment_body_text(),
    )
}

/// The fragment entry point.
pub fn fragment_entry() -> (out: String)
    ensures
        out@ == fragment_entry_text(),
{
    source::entry_source(
        "@fragment",
        FRAGMENT_ENTRY_POINT,
        "input: FragmentInput",
        interface::GBUFFER_OUTPUT_NAME,
        fragment_body().as_str(),
    )
}

/// The vertex module.
pub open spec fn gbuffer_vertex_text() -> Seq<char> {
    "\n"@ + buffer_layouts::struct_text(buffer_layouts::CAMERA_NAME@, buffer_layouts::CAMERA@)
        + "\n"@ + buffer_layouts::struct_text(
        buffer_layouts::PER_OBJECT_NAME@,
        buffer_layouts::PER_OBJECT@,
    ) + "\n"@ + shaders::decls_text(gbuffer_rows(), VERTEX_BINDINGS@) + "\n"@
        + assembly::closed_decl(
        interface::interface_text(
            interface::GBUFFER_VERTEX_INPUT_NAME@,
            interface::GBUFFER_VERTEX_INPUT@,
        ),
    ) + "\n"@ + assembly::closed_decl(
        interface::interface_text(
            interface::GBUFFER_VERTEX_OUTPUT_NAME@,
            interface::GBUFFER_VERTEX_OUTPUT@,
        ),
    ) + "\n"@ + vertex_entry_text()
}

/// The vertex module: buffers, bindings, interface and vertex stage. Its buffer structs end
/// with a bare brace.
pub fn wgsl_vertex_source() -> (out: String)
    ensures
        out@ == gbuffer_vertex_text(),
{
    let table = gbuffer_resources();
    proof {
        shaders::lemma_numbered(table@);
    }
    let camera = buffer_layouts::struct_source(
        buffer_layouts::CAMERA_NAME,
        &buffer_layouts::CAMERA,
    );
    let objects = buffer_layouts::struct_source(
        buffer_layouts::PER_OBJECT_NAME,
        &buffer_layouts::PER_OBJECT,
    );
    let attributes = interface::interface_source(
        interface::GBUFFER_VERTEX_INPUT_NAME,
        &interface::GBUFFER_VERTEX_INPUT,
    );
    let varyings = interface::interface_source(
        interface::GBUFFER_VERTEX_OUTPUT_NAME,
        &interface::GBUFFER_VERTEX_OUTPUT,
    );
    let mut out: String = "\n".to_owned();
    out.append(camera.as_str());
    out.append("\n");
    out.append(objects.as_str());
    out.append("\n");
    out.append(resource_decls(&table, &VERTEX_BINDINGS).as_str());
    out.append("\n");
    out.append(wgsl_decl(attributes.as_str()).as_str());
    out.append("\n");
    out.append(wgsl_decl(varyings.as_str()).as_str());
    out.append("\n");
    out.append(vertex_entry().as_str());
    out
}

/// The fragment module.
pub open spec fn gbuffer_text() -> Seq<char> {
    openpbr::openpbr_text() + "\n"@ + shaders::decls_text(gbuffer_rows(), FRAGMENT_BINDINGS@)
        + "\n"@ + assembly::closed_decl(
        interface::interface_text(
            interface::GBUFFER_FRAGMENT_INPUT_NAME@,
            interface::GBUFFER_FRAGMENT_INPUT@,
        ),
    ) + "\n"@ + assembly::closed_decl(
        interface::interface_text(interface::GBUFFER_OUTPUT_NAME@, interface::GBUFFER_OUTPUT@),
    ) + "\n"@ + fragment_entry_text() + "\n"@ + math::OCTAHEDRAL_ENCODE@
}

/// The fragment module: material, binding, interface, fragment stage and normal encoding.
pub fn wgsl_source() -> (out: String)
    ensures
        out@ == gbuffer_text(),
{
    let table = gbuffer_resources();
    proof {
        shaders::lemma_numbered(table@);
    }
    let varyings = interface::interface_source(
        interface::GBUFFER_FRAGMENT_INPUT_NAME,
        &interface::GBUFFER_FRAGMENT_INPUT,
    );
    let targets = interface::interface_source(
        interface::GBUFFER_OUTPUT_NAME,
        &interface::GBUFFER_OUTPUT,
    );
    let mut out: String = openpbr::openpbr_material_decl();
    out.append("\n");
    out.append(resource_decls(&table, &FRAGMENT_BINDINGS).as_str());
    out.append("\n");
    out.append(wgsl_decl(varyings.as_str()).as_str());
    out.append("\n");
    out.append(wgsl_decl(targets.as_str()).as_str());
    out.append("\n");
    out.append(fragment_entry().as_str());
    out.append("\n");
    out.append(math::OCTAHEDRAL_ENCODE);
    out
}

/// The fragment module, for validation.
pub fn wgsl_source_static() -> (out: String)
    ensures
        out@ == gbuffer_text(),
{
    wgsl_source()
}

} // verus!
