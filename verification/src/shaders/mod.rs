//! Shader modules assembled from resource tables, declarations and function sources.
//!
//! Every pass has one resource table. The table gives both the WGSL declarations of the pass
//! and the entries of its bind group layout, so the two agree on numbers, stages and kinds.
use vstd::prelude::*;
#[allow(unused_imports)]
use vstd::string::*;

use crate::text;

pub mod assembly;
pub mod bloom_generated;
pub mod buffer_layouts;
pub mod composite_generated;
pub mod declaration_laws;
pub mod gbuffer_generated;
pub mod hdr_composite_generated;
pub mod helpers;
pub mod interface;
pub mod lighting_generated;
pub mod math;
pub mod member_laws;
pub mod naga_ir;
pub mod ir_laws;
pub mod openpbr;
pub mod pbr_generated;
pub mod quad;
pub mod shading;
pub mod shading_laws;
pub mod stage_laws;
pub mod source;

pub use assembly::{wgsl_decl, ShaderModule};

verus! {

/// Shader stages that see a resource.
#[derive(Clone, Copy, Debug, PartialEq, Eq, Structural)]
pub struct ShaderStages {
    pub vertex: bool,
    pub fragment: bool,
}

impl ShaderStages {
    /// Whether every stage of `other` is one of `self`.
    pub open spec fn covers(self, other: ShaderStages) -> bool {
        (other.vertex ==> self.vertex) && (other.fragment ==> self.fragment)
    }

    /// Whether every stage of `other` is one of `self`.
    pub fn contains(&self, other: ShaderStages) -> (yes: bool)
        ensures
            yes == self.covers(other),
    {
        (self.vertex || !other.vertex) && (self.fragment || !other.fragment)
    }
}

/// The vertex stage.
pub open spec fn vertex_stage() -> ShaderStages {
    ShaderStages { vertex: true, fragment: false }
}

/// The fragment stage.
pub open spec fn fragment_stage() -> ShaderStages {
    ShaderStages { vertex: false, fragment: true }
}

/// Both stages.
pub open spec fn both_stages() -> ShaderStages {
    ShaderStages { vertex: true, fragment: true }
}

impl ShaderStages {
    /// The vertex stage.
    pub fn vertex() -> (s: ShaderStages)
        ensures
            s == vertex_stage(),
    {
        ShaderStages { vertex: true, fragment: false }
    }

    /// The fragment stage.
    pub fn fragment() -> (s: ShaderStages)
        ensures
            s == fragment_stage(),
    {
        ShaderStages { vertex: false, fragment: true }
    }

    /// Both stages.
    pub fn vertex_fragment() -> (s: ShaderStages)
        ensures
            s == both_stages(),
    {
        ShaderStages { vertex: true, fragment: true }
    }
}

/// Address space or resource class of one pass resource. Buffers carry the name of their type.
#[derive(Clone, Copy, Debug, PartialEq, Eq)]
pub enum ResourceKind {
    /// `var<uniform> name: Ty`.
    Uniform(&'static str),
    /// `var<storage, read> name: Ty`.
    StorageRead(&'static str),
    /// `var<storage, read> name: array<Ty>`.
    StorageReadArray(&'static str),
    /// `var<storage, read_write> name: Ty`.
    StorageRw(&'static str),
    /// `var name: texture_2d<f32>`.
    TextureFloat,
    /// `var name: texture_2d<u32>`.
    TextureUint,
    /// `var name: texture_depth_2d`.
    TextureDepth,
    /// `var name: sampler`.
    Sampler,
}

/// How a buffer is bound.
#[derive(Clone, Copy, Debug, PartialEq, Eq, Structural)]
pub enum BufferBindingType {
    Uniform,
    Storage { read_only: bool },
}

/// What sampling a texture gives.
#[derive(Clone, Copy, Debug, PartialEq, Eq, Structural)]
pub enum TextureSampleType {
    Float { filterable: bool },
    Uint,
    Depth,
}

/// How a resource is bound. Textures are two-dimensional and samplers filter.
#[derive(Clone, Copy, Debug, PartialEq, Eq)]
pub enum BindingType {
    Buffer { ty: BufferBindingType, has_dynamic_offset: bool, min_binding_size: Option<u64> },
    Texture { sample_type: TextureSampleType, multisampled: bool },
    Sampler,
}

impl ResourceKind {
    /// The resource is a buffer.
    pub open spec fn is_buffer(self) -> bool {
        self is Uniform || self is StorageRead || self is StorageReadArray || self is StorageRw
    }

    /// The resource is a texture.
    pub open spec fn is_texture(self) -> bool {
        self is TextureFloat || self is TextureUint || self is TextureDepth
    }

    /// The type in the declaration of the resource.
    pub open spec fn type_text(self) -> Seq<char> {
        match self {
            ResourceKind::Uniform(ty) => ty@,
            ResourceKind::StorageRead(ty) => ty@,
            ResourceKind::StorageRw(ty) => ty@,
            ResourceKind::StorageReadArray(elem) => "array<"@ + elem@ + ">"@,
            ResourceKind::TextureFloat => "texture_2d<f32>"@,
            ResourceKind::TextureUint => "texture_2d<u32>"@,
            ResourceKind::TextureDepth => "texture_depth_2d"@,
            ResourceKind::Sampler => "sampler"@,
        }
    }

    /// The type in the declaration of the resource.
    pub fn wgsl_ty_full(&self) -> (out: String)
        ensures
            out@ == self.type_text(),
    {
        match self {
            ResourceKind::Uniform(ty) => (*ty).to_owned(),
            ResourceKind::StorageRead(ty) => (*ty).to_owned(),
            ResourceKind::StorageRw(ty) => (*ty).to_owned(),
            ResourceKind::StorageReadArray(elem) => {
                let mut out: String = "array<".to_owned();
                out.append(elem);
                out.append(">");
                out
            },
            ResourceKind::TextureFloat => "texture_2d<f32>".to_owned(),
            ResourceKind::TextureUint => "texture_2d<u32>".to_owned(),
            ResourceKind::TextureDepth => "texture_depth_2d".to_owned(),
            ResourceKind::Sampler => "sampler".to_owned(),
        }
    }

    /// The `var` keyword with the address space of the resource.
    pub open spec fn var_text(self) -> Seq<char> {
        match self {
            ResourceKind::Uniform(_) => "var<uniform>"@,
            ResourceKind::StorageRead(_) => "var<storage, read>"@,
            ResourceKind::StorageReadArray(_) => "var<storage, read>"@,
            ResourceKind::StorageRw(_) => "var<storage, read_write>"@,
            _ => "var"@,
        }
    }

    /// The `var` keyword with the address space of the resource.
    fn wgsl_var(&self) -> (out: &'static str)
        ensures
            out@ == self.var_text(),
    {
        match self {
            ResourceKind::Uniform(_) => "var<uniform>",
            ResourceKind::StorageRead(_) => "var<storage, read>",
            ResourceKind::StorageReadArray(_) => "var<storage, read>",
            ResourceKind::StorageRw(_) => "var<storage, read_write>",
            _ => "var",
        }
    }

    /// The binding type of the resource, without a minimum size.
    pub open spec fn binding_type(self, multisampled: bool) -> BindingType {
        match self {
            ResourceKind::Uniform(_) => BindingType::Buffer {
                ty: BufferBindingType::Uniform,
                has_dynamic_offset: false,
                min_binding_size: None,
            },
            ResourceKind::StorageRead(_) => BindingType::Buffer {
                ty: BufferBindingType::Storage { read_only: true },
                has_dynamic_offset: false,
                min_binding_size: None,
            },
            ResourceKind::StorageReadArray(_) => BindingType::Buffer {
                ty: BufferBindingType::Storage { read_only: true },
                has_dynamic_offset: false,
                min_binding_size: None,
            },
            ResourceKind::StorageRw(_) => BindingType::Buffer {
                ty: BufferBindingType::Storage { read_only: false },
                has_dynamic_offset: false,
                min_binding_size: None,
            },
            ResourceKind::TextureFloat => BindingType::Texture {
                sample_type: TextureSampleType::Float { filterable: true },
                multisampled,
            },
            ResourceKind::TextureUint => BindingType::Texture {
                sample_type: TextureSampleType::Uint,
                multisampled,
            },
            ResourceKind::TextureDepth => BindingType::Texture {
                sample_type: TextureSampleType::Depth,
                multisampled,
            },
            ResourceKind::Sampler => BindingType::Sampler,
        }
    }

    /// The binding type of the resource. Only textures observe `multisampled`.
    pub fn bgl_ty(&self, multisampled: bool) -> (ty: BindingType)
        ensures
            ty == self.binding_type(multisampled),
    {
        match self {
            ResourceKind::Uniform(_) => BindingType::Buffer {
                ty: BufferBindingType::Uniform,
                has_dynamic_offset: false,
                min_binding_size: None,
            },
            ResourceKind::StorageRead(_) => BindingType::Buffer {
                ty: BufferBindingType::Storage { read_only: true },
                has_dynamic_offset: false,
                min_binding_size: None,
            },
            ResourceKind::StorageReadArray(_) => BindingType::Buffer {
                ty: BufferBindingType::Storage { read_only: true },
                has_dynamic_offset: false,
                min_binding_size: None,
            },
            ResourceKind::StorageRw(_) => BindingType::Buffer {
                ty: BufferBindingType::Storage { read_only: false },
                has_dynamic_offset: false,
                min_binding_size: None,
            },
            ResourceKind::TextureFloat => BindingType::Texture {
                sample_type: TextureSampleType::Float { filterable: true },
                multisampled,
            },
            ResourceKind::TextureUint => BindingType::Texture {
                sample_type: TextureSampleType::Uint,
                multisampled,
            },
            ResourceKind::TextureDepth => BindingType::Texture {
                sample_type: TextureSampleType::Depth,
                multisampled,
            },
            ResourceKind::Sampler => BindingType::Sampler,
        }
    }
}

/// One pass resource: where it binds, which stages see it and under what name.
#[derive(Clone, Copy, Debug)]
pub struct Resource {
    /// `@group` index.
    pub group: u32,
    /// `@binding` index.
    pub binding: u32,
    /// Shader stages that see the resource.
    pub visibility: ShaderStages,
    /// Name of the variable.
    pub name: &'static str,
    /// Address space or resource class.
    pub kind: ResourceKind,
    /// Smallest buffer that may be bound, in bytes. Textures and samplers ignore it.
    pub min_size: Option<u64>,
}

/// A row of a table whose resources all stand in group 0.
pub open spec fn row(
    binding: u32,
    visibility: ShaderStages,
    name: &'static str,
    kind: ResourceKind,
    min_size: Option<u64>,
) -> Resource {
    Resource { group: 0, binding, visibility, name, kind, min_size }
}

impl Resource {
    /// A row of a table whose resources all stand in group 0.
    pub fn new(
        binding: u32,
        visibility: ShaderStages,
        name: &'static str,
        kind: ResourceKind,
        min_size: Option<u64>,
    ) -> (r: Resource)
        ensures
            r == row(binding, visibility, name, kind, min_size),
    {
        Resource { group: 0, binding, visibility, name, kind, min_size }
    }
}

/// The declaration of one resource.
pub open spec fn decl_text(r: Resource) -> Seq<char> {
    "@group("@ + text::decimal(r.group as nat) + ") @binding("@ + text::decimal(r.binding as nat)
        + ") "@ + r.kind.var_text() + " "@ + r.name@ + ": "@ + r.kind.type_text() + ";\n"@
}

/// The declaration of one resource.
pub fn resource_decl(r: &Resource) -> (out: String)
    ensures
        out@ == decl_text(*r),
{
    let mut out: String = "@group(".to_owned();
    text::push_decimal(&mut out, r.group as u64);
    out.append(") @binding(");
    text::push_decimal(&mut out, r.binding as u64);
    out.append(") ");
    out.append(r.kind.wgsl_var());
    out.append(" ");
    out.append(r.name);
    out.append(": ");
    out.append(r.kind.wgsl_ty_full().as_str());
    out.append(";\n");
    out
}

/// `row` is the first row of the table with the binding.
pub open spec fn is_row_of(table: Seq<Resource>, binding: u32, row: int) -> bool {
    &&& 0 <= row < table.len()
    &&& table[row].binding == binding
    &&& forall|k: int| 0 <= k < row ==> (#[trigger] table[k]).binding != binding
}

/// Position of the first row with the binding, or the table's length.
pub open spec fn row_of(table: Seq<Resource>, binding: u32) -> int
    decreases table.len(),
{
    if table.len() == 0 {
        0
    } else if table[0].binding == binding {
        0
    } else {
        1 + row_of(table.drop_first(), binding)
    }
}

/// The table has a row for the binding.
pub open spec fn has_binding(table: Seq<Resource>, binding: u32) -> bool {
    exists|k: int| 0 <= k < table.len() && (#[trigger] table[k]).binding == binding
}

/// The first row with a binding is the row that [`row_of`] names.
pub proof fn lemma_row_of(table: Seq<Resource>, binding: u32, row: int)
    requires
        is_row_of(table, binding, row),
    ensures
        row_of(table, binding) == row,
    decreases table.len(),
{
    if row > 0 {
        assert(table[0].binding != binding);
        let rest = table.drop_first();
        assert forall|k: int| 0 <= k < row - 1 implies (#[trigger] rest[k]).binding != binding by {
            assert(rest[k] == table[k + 1]);
        }
        lemma_row_of(rest, binding, row - 1);
    }
}

/// Rows are numbered by their bindings, without gaps.
pub open spec fn numbered(table: Seq<Resource>) -> bool {
    forall|k: int| 0 <= k < table.len() ==> (#[trigger] table[k]).binding == k
}

/// In a numbered table the row of a binding stands at its number.
pub proof fn lemma_numbered(table: Seq<Resource>)
    requires
        numbered(table),
    ensures
        forall|b: u32| b < table.len() ==> #[trigger] has_binding(table, b),
        forall|b: u32| b < table.len() ==> #[trigger] row_of(table, b) == b,
{
    assert forall|b: u32| b < table.len() implies #[trigger] has_binding(table, b) by {
        assert(table[b as int].binding == b);
    }
    assert forall|b: u32| b < table.len() implies #[trigger] row_of(table, b) == b by {
        assert(table[b as int].binding == b);
        lemma_row_of(table, b, b as int);
    }
}

/// Declarations of the listed bindings, in order.
pub open spec fn decls_text(table: Seq<Resource>, bindings: Seq<u32>) -> Seq<char>
    decreases bindings.len(),
{
    if bindings.len() == 0 {
        Seq::empty()
    } else {
        decls_text(table, bindings.drop_last()) + decl_text(
            table[row_of(table, bindings.last())],
        )
    }
}

/// Declarations of the listed bindings of a table, in order. Of rows with the same binding the
/// first counts.
pub fn resource_decls(table: &[Resource], bindings: &[u32]) -> (out: String)
    requires
        forall|i: int|
            0 <= i < bindings@.len() ==> #[trigger] has_binding(table@, bindings@[i]),
    ensures
        out@ == decls_text(table@, bindings@),
{
    let mut out = String::new();
    assert(bindings@.subrange(0, 0) == Seq::<u32>::empty());
    for i in 0..bindings.len()
        invariant
            forall|i: int|
                0 <= i < bindings@.len() ==> #[trigger] has_binding(table@, bindings@[i]),
            out@ == decls_text(table@, bindings@.subrange(0, i as int)),
    {
        let wanted: u32 = bindings[i];
        assert(has_binding(table@, bindings@[i as int]));
        let mut row: usize = 0;
        while table[row].binding != wanted
            invariant
                row < table@.len(),
                has_binding(table@, wanted),
                forall|k: int| 0 <= k < row ==> (#[trigger] table@[k]).binding != wanted,
            decreases table@.len() - row,
        {
            row = row + 1;
        }
        proof {
            lemma_row_of(table@, wanted, row as int);
            let next = bindings@.subrange(0, i + 1);
            assert(next.drop_last() == bindings@.subrange(0, i as int));
            assert(next.last() == wanted);
        }
        out.append(resource_decl(&table[row]).as_str());
    }
    assert(bindings@.subrange(0, bindings@.len() as int) == bindings@);
    out
}

/// One entry of a bind group layout.
#[derive(Clone, Copy, Debug, PartialEq, Eq)]
pub struct BindGroupLayoutEntry {
    pub binding: u32,
    pub visibility: ShaderStages,
    pub ty: BindingType,
}

/// The binding type with the minimum size of the resource, where it is a buffer.
pub open spec fn sized_type(r: Resource, multisampled: bool) -> BindingType {
    match r.kind.binding_type(multisampled) {
        BindingType::Buffer { ty, has_dynamic_offset, .. } => BindingType::Buffer {
            ty,
            has_dynamic_offset,
            min_binding_size: r.min_size,
        },
        other => other,
    }
}

/// The layout entry of a resource.
pub open spec fn entry_of(r: Resource, multisampled: bool) -> BindGroupLayoutEntry {
    BindGroupLayoutEntry {
        binding: r.binding,
        visibility: r.visibility,
        ty: sized_type(r, multisampled),
    }
}

/// A buffer's minimum size, where it has one, is not zero.
pub open spec fn size_ok(r: Resource) -> bool {
    r.kind.is_buffer() ==> r.min_size != Some(0u64)
}

/// The layout entry of a resource. Only textures observe `multisampled`.
pub fn bgl_entry(r: &Resource, multisampled: bool) -> (entry: BindGroupLayoutEntry)
    requires
        size_ok(*r),
    ensures
        entry == entry_of(*r, multisampled),
{
    let ty = match r.kind.bgl_ty(multisampled) {
        BindingType::Buffer { ty, has_dynamic_offset, .. } => BindingType::Buffer {
            ty,
            has_dynamic_offset,
            min_binding_size: r.min_size,
        },
        other => other,
    };
    BindGroupLayoutEntry { binding: r.binding, visibility: r.visibility, ty }
}

/// No buffer row has a minimum size of zero.
pub open spec fn sizes_ok(table: Seq<Resource>) -> bool {
    forall|i: int| 0 <= i < table.len() ==> size_ok(#[trigger] table[i])
}

/// The layout entries of a table, row by row.
pub open spec fn table_entries(table: Seq<Resource>, multisampled: bool) -> Seq<
    BindGroupLayoutEntry,
> {
    table.map_values(|r: Resource| entry_of(r, multisampled))
}

/// The layout entries of a table, row by row.
pub fn bgl_entries(table: &[Resource], multisampled: bool) -> (entries: Vec<BindGroupLayoutEntry>)
    requires
        sizes_ok(table@),
    ensures
        entries@ == table_entries(table@, multisampled),
{
    let mut entries: Vec<BindGroupLayoutEntry> = Vec::new();
    for i in 0..table.len()
        invariant
            sizes_ok(table@),
            entries@.len() == i,
            forall|k: int|
                0 <= k < i ==> #[trigger] entries@[k] == entry_of(table@[k], multisampled),
    {
        entries.push(bgl_entry(&table[i], multisampled));
    }
    assert(entries@ =~= table_entries(table@, multisampled));
    entries
}

/// One entry of a bind group: a binding and what is bound there.
#[derive(Debug)]
pub struct BindGroupEntry<R> {
    pub binding: u32,
    pub resource: R,
}

/// Bind group entries of a table: the numbers come from the rows, the resources from `resolve`.
pub fn bind_group_entries<R, F: Fn(&Resource) -> R>(table: &[Resource], resolve: F) -> (entries:
    Vec<BindGroupEntry<R>>)
    requires
        forall|i: int|
            0 <= i < table@.len() ==> #[trigger] call_requires(resolve, (&table@[i],)),
    ensures
        entries@.len() == table@.len(),
        forall|i: int|
            0 <= i < table@.len() ==> (#[trigger] entries@[i]).binding == table@[i].binding
                && call_ensures(resolve, (&table@[i],), entries@[i].resource),
{
    let mut entries: Vec<BindGroupEntry<R>> = Vec::new();
    for i in 0..table.len()
        invariant
            forall|i: int|
                0 <= i < table@.len() ==> #[trigger] call_requires(resolve, (&table@[i],)),
            entries@.len() == i,
            forall|k: int|
                0 <= k < i ==> (#[trigger] entries@[k]).binding == table@[k].binding
                    && call_ensures(resolve, (&table@[k],), entries@[k].resource),
    {
        assert(call_requires(resolve, (&table@[i as int],)));
        let resource = resolve(&table[i]);
        entries.push(BindGroupEntry { binding: table[i].binding, resource });
    }
    entries
}

/// Marks a two-dimensional color texture among the globals of a stage.
#[derive(Debug)]
pub struct Texture2d;

/// Marks a two-dimensional texture of unsigned integers among the globals of a stage.
#[derive(Debug)]
pub struct Texture2dUint;

/// Marks a depth texture among the globals of a stage.
#[derive(Debug)]
pub struct DepthTexture;

/// Marks a sampler among the globals of a stage.
#[derive(Debug)]
pub struct Sampler;

/// The index of a vertex, as the vertex stage receives it.
#[derive(Debug)]
pub struct VertexIndex(pub u32);

/// The index of an instance, as the vertex stage receives it.
#[derive(Debug)]
pub struct InstanceIndex(pub u32);

/// Marks a bundle of globals in the signature of a stage.
#[derive(Debug)]
pub struct Context<T>(T);

/// Marks a result that a stage writes to the location `N`.
#[derive(Debug)]
pub struct Location<const N: usize, T>(T, core::marker::PhantomData<[u8; N]>);

/// The composite vertex module.
pub fn composite_vertex() -> (out: String)
    ensures
        out@ == hdr_composite_generated::hdr_vertex_text(),
{
    hdr_composite_generated::wgsl_vertex_source()
}

/// The composite fragment module.
pub fn composite_fragment() -> (out: String)
    ensures
        out@ == hdr_composite_generated::hdr_text(),
{
    hdr_composite_generated::wgsl_source()
}

/// The bloom module.
pub fn bloom_fragment() -> (out: String)
    ensures
        out@ == bloom_generated::bloom_text(),
{
    bloom_generated::wgsl_source()
}

/// The g-buffer vertex module.
pub fn gbuffer_vertex() -> (out: String)
    ensures
        out@ == gbuffer_generated::gbuffer_vertex_text(),
{
    gbuffer_generated::wgsl_vertex_source()
}

/// The g-buffer fragment module.
pub fn gbuffer_fragment() -> (out: String)
    ensures
        out@ == gbuffer_generated::gbuffer_text(),
{
    gbuffer_generated::wgsl_source()
}

/// The lighting vertex module.
pub fn lighting_vertex() -> (out: String)
    ensures
        out@ == lighting_generated::lighting_vertex_text(),
{
    lighting_generated::wgsl_vertex_source()
}

/// The lighting fragment module.
pub fn lighting_fragment() -> (out: String)
    ensures
        out@ == lighting_generated::lighting_text(),
{
    lighting_generated::wgsl_source()
}

/// The forward vertex module, shared with the g-buffer pass.
pub fn pbr_vertex() -> (out: String)
    ensures
        out@ == gbuffer_generated::gbuffer_vertex_text(),
{
    pbr_generated::wgsl_vertex_source()
}

/// The forward fragment module.
pub fn pbr_fragment() -> (out: String)
    ensures
        out@ == pbr_generated::pbr_text(),
{
    pbr_generated::wgsl_source()
}

} // verus!
