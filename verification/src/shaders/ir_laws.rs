//! Laws of the declarations built as IR: they declare what the texts declare.
use vstd::prelude::*;
#[allow(unused_imports)]
use vstd::string::*;

use crate::shaders;
use crate::shaders::buffer_layouts;
use crate::shaders::buffer_layouts::{Field, FieldType};
use crate::shaders::naga_ir;
use crate::shaders::naga_ir::{AddressSpace, ImageKind, NumericType, TypeModel};
use crate::shaders::{
    BindingType, BufferBindingType, Resource, ResourceKind, TextureSampleType,
};
use crate::text;

verus! {

/// How the text declares a variable of an address space.
pub open spec fn space_text(space: AddressSpace) -> Seq<char> {
    match space {
        AddressSpace::Uniform => "var<uniform>"@,
        AddressSpace::StorageRead => "var<storage, read>"@,
        AddressSpace::StorageReadWrite => "var<storage, read_write>"@,
        AddressSpace::Handle => "var"@,
    }
}

/// Name of a struct type.
pub open spec fn struct_name(ty: TypeModel) -> Seq<char> {
    ty->name
}

/// How the text spells a type of a module.
pub open spec fn spelled(types: Seq<TypeModel>, ty: TypeModel) -> Seq<char> {
    match ty {
        TypeModel::Numeric(NumericType::Float) => "f32"@,
        TypeModel::Numeric(NumericType::Uint) => "u32"@,
        TypeModel::Numeric(NumericType::Vec4) => "vec4<f32>"@,
        TypeModel::Numeric(NumericType::Mat4) => "mat4x4<f32>"@,
        TypeModel::Array { base, count: Some(n), .. } => "array<"@ + struct_name(types[base as int])
            + ", "@ + text::decimal(n as nat) + ">"@,
        TypeModel::Array { base, count: None, .. } => "array<"@ + struct_name(types[base as int])
            + ">"@,
        TypeModel::Struct { name, .. } => name,
        TypeModel::Image { kind: ImageKind::Float, .. } => "texture_2d<f32>"@,
        TypeModel::Image { kind: ImageKind::Uint, .. } => "texture_2d<u32>"@,
        TypeModel::Image { kind: ImageKind::Depth, .. } => "texture_depth_2d"@,
        TypeModel::Sampler => "sampler"@,
    }
}

/// The struct type that a buffer resource names.
pub open spec fn record_name(kind: ResourceKind) -> Seq<char> {
    match kind {
        ResourceKind::Uniform(ty) => ty@,
        ResourceKind::StorageRead(ty) => ty@,
        ResourceKind::StorageReadArray(ty) => ty@,
        ResourceKind::StorageRw(ty) => ty@,
        _ => Seq::empty(),
    }
}

/// The global of a resource is what the text of the resource declares: the same numbers, name, address
/// space and type. The elements of an array follow one another by the size of their struct.
pub proof fn globals_are_declared_as_in_the_text(types: Seq<TypeModel>, r: Resource, ty: nat)
    requires
        r.kind.is_buffer() ==> ty < types.len() && types[ty as int] is Struct && struct_name(
            types[ty as int],
        ) == record_name(r.kind),
    ensures
        ({
            let after = naga_ir::with_resource(types, r.kind, ty, false);
            let global = naga_ir::resource_global(types, r, ty, false);
            &&& global.name == r.name@
            &&& global.group == r.group
            &&& global.binding == r.binding
            &&& space_text(global.space) == r.kind.var_text()
            &&& global.ty < after.len()
            &&& spelled(after, after[global.ty as int]) == r.kind.type_text()
            &&& after[global.ty as int] matches TypeModel::Array { base, stride, .. } ==> base == ty
                && stride == types[ty as int]->span
        }),
{
    match naga_ir::resource_model(types, r.kind, ty, false) {
        Some(model) => {
            naga_ir::lemma_slot(types, model);
        },
        None => {},
    }
}

/// Types that were there keep their places while the members of a struct are inserted.
proof fn lemma_fields_extend(types: Seq<TypeModel>, fields: Seq<Field>, light: nat, n: int, j: int)
    requires
        0 <= n <= fields.len(),
        0 <= j < naga_ir::with_fields(types, fields.subrange(0, n), light).len(),
    ensures
        j < naga_ir::with_fields(types, fields, light).len(),
        naga_ir::with_fields(types, fields, light)[j] == naga_ir::with_fields(
            types,
            fields.subrange(0, n),
            light,
        )[j],
    decreases fields.len(),
{
    if n == fields.len() {
        assert(fields.subrange(0, n) == fields);
    } else {
        let rest = fields.drop_last();
        assert(rest.subrange(0, n) == fields.subrange(0, n));
        lemma_fields_extend(types, rest, light, n, j);
    }
}

proof fn lemma_lights_spelled()
    ensures
        "array<Light, 4>"@ == "array<"@ + buffer_layouts::LIGHT_NAME@ + ", "@ + text::decimal(
            buffer_layouts::MAX_LIGHTS as nat,
        ) + ">"@,
{
    reveal_strlit("array<Light, 4>");
    reveal_strlit("array<");
    reveal_strlit("Light");
    reveal_strlit(", ");
    reveal_strlit(">");
    assert(text::decimal(4) == seq!['4']);
}

/// The struct of a buffer is what its text declares: the same name and members, each under its name,
/// at the offset that the layout gives it, and of the type that the text spells, which takes the
/// bytes that the layout leaves for it.
pub proof fn members_are_declared_as_in_the_text(
    types: Seq<TypeModel>,
    name: Seq<char>,
    fields: Seq<Field>,
    light: nat,
    i: int,
)
    requires
        0 <= i < fields.len(),
        fields[i].1 is Lights ==> light < types.len() && types[light as int] is Struct
            && struct_name(types[light as int]) == buffer_layouts::LIGHT_NAME@,
    ensures
        ({
            let after = naga_ir::with_layout(types, name, fields, light);
            let at = naga_ir::layout_slot(types, name, fields, light);
            let record = after[at as int];
            &&& at < after.len()
            &&& record is Struct
            &&& struct_name(record) == name
            &&& record->span == buffer_layouts::span_of(fields)
            &&& record->members.len() == fields.len()
            &&& record->members[i].name == fields[i].0@
            &&& record->members[i].offset == buffer_layouts::offset_of(fields, i)
            &&& record->members[i].ty < after.len()
            &&& spelled(after, after[record->members[i].ty as int]) == fields[i].1.type_text()
            &&& naga_ir::model_bytes(after[record->members[i].ty as int]) == fields[i].1.bytes()
        }),
{
    let inner = naga_ir::with_fields(types, fields, light);
    let model = naga_ir::layout_model(types, name, fields, light);
    let after = naga_ir::with_layout(types, name, fields, light);
    naga_ir::lemma_slot(inner, model);
    let before = naga_ir::with_fields(types, fields.subrange(0, i), light);
    let wanted = naga_ir::field_model(fields[i].1, light);
    naga_ir::lemma_slot(before, wanted);
    let next = fields.subrange(0, i + 1);
    assert(next.drop_last() == fields.subrange(0, i));
    assert(next.last() == fields[i]);
    let k = naga_ir::slot(before, wanted) as int;
    assert(naga_ir::with_fields(types, next, light)[k] == wanted);
    lemma_fields_extend(types, fields, light, i + 1, k);
    assert(inner[k] == wanted && after[k] == wanted);
    buffer_layouts::lemma_light_span();
    if fields[i].1 is Lights {
        assert(fields.subrange(0, 0) == Seq::<Field>::empty());
        assert(naga_ir::with_fields(types, fields.subrange(0, 0), light) == types);
        lemma_fields_extend(types, fields, light, 0, light as int);
        assert(after[light as int] == types[light as int]);
        lemma_lights_spelled();
    }
}

/// The bind group layout agrees with the address space and the image of every resource.
pub proof fn bindings_agree_with_the_declarations(kind: ResourceKind, multisampled: bool)
    ensures
        match kind.binding_type(multisampled) {
            BindingType::Buffer { ty: BufferBindingType::Uniform, .. } => naga_ir::resource_space(
                kind,
            ) == AddressSpace::Uniform,
            BindingType::Buffer { ty: BufferBindingType::Storage { read_only }, .. } => {
                naga_ir::resource_space(kind) == if read_only {
                    AddressSpace::StorageRead
                } else {
                    AddressSpace::StorageReadWrite
                }
            },
            BindingType::Texture { sample_type, multisampled: m } => {
                &&& naga_ir::resource_space(kind) == AddressSpace::Handle
                &&& m == multisampled
                &&& naga_ir::image_kind(kind) == match sample_type {
                    TextureSampleType::Float { .. } => ImageKind::Float,
                    TextureSampleType::Uint => ImageKind::Uint,
                    TextureSampleType::Depth => ImageKind::Depth,
                }
            },
            BindingType::Sampler => naga_ir::resource_space(kind) == AddressSpace::Handle,
        },
        kind.binding_type(multisampled) is Buffer <==> kind.is_buffer(),
        kind.binding_type(multisampled) is Texture <==> kind.is_texture(),
{
}

/// The layout entry of a buffer demands the size that its row gives, and no dynamic offset; its
/// textures can be filtered where they hold numbers to interpolate.
pub proof fn layout_entries_demand_what_the_row_gives(r: Resource, multisampled: bool)
    ensures
        match shaders::entry_of(r, multisampled).ty {
            BindingType::Buffer { has_dynamic_offset, min_binding_size, .. } => r.kind.is_buffer()
                && !has_dynamic_offset && min_binding_size == r.min_size,
            BindingType::Texture { sample_type, multisampled: m } => {
                &&& r.kind.is_texture()
                &&& m == multisampled
                &&& sample_type == (TextureSampleType::Float { filterable: true }) <==> r.kind
                    is TextureFloat
            },
            BindingType::Sampler => r.kind is Sampler,
        },
{
}

/// A type fills as many bytes as it has numbers, four each; every light takes a record.
pub proof fn numbers_take_four_bytes(ty: FieldType)
    ensures
        ty.bytes() == 4 * match ty {
            FieldType::Float | FieldType::Uint => 1nat,
            FieldType::Vec4 => 4,
            FieldType::Mat4 => 4 * 4,
            FieldType::Lights => buffer_layouts::MAX_LIGHTS as nat * (4 + 4),
        },
        ty.bytes() % ty.alignment() == 0,
{
}

} // verus!
