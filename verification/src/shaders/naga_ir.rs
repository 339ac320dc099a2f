//! Declarations built as naga IR and printed by naga's own WGSL writer.
//!
//! Types and globals of a module are indexed by the order of their insertion. A type that a
//! module already holds is not inserted again.
use vstd::prelude::*;
#[allow(unused_imports)]
use vstd::string::*;

use crate::shaders::buffer_layouts;
use crate::shaders::buffer_layouts::{Field, FieldType};
use crate::shaders::openpbr;
use crate::shaders::{Resource, ResourceKind};
use crate::text;

verus! {

/// naga's shader module.
#[verifier::external_type_specification]
#[verifier::external_body]
pub struct ExModule(naga::Module);

/// Numbers, and vectors and matrices of numbers.
#[derive(Clone, Copy, Debug, PartialEq, Eq, Structural)]
pub enum NumericType {
    Float,
    Uint,
    Vec4,
    Mat4,
}

/// What an image holds.
#[derive(Clone, Copy, Debug, PartialEq, Eq, Structural)]
pub enum ImageKind {
    Float,
    Uint,
    Depth,
}

/// Where a global lives.
#[derive(Clone, Copy, Debug, PartialEq, Eq, Structural)]
pub enum AddressSpace {
    Uniform,
    StorageRead,
    StorageReadWrite,
    Handle,
}

/// A struct member to insert: its name, the index of its type and its offset.
#[derive(Debug)]
pub struct Member {
    pub name: String,
    pub ty: usize,
    pub offset: u32,
}

/// View of a [`Member`].
#[verifier::ext_equal]
pub struct MemberModel {
    pub name: Seq<char>,
    pub ty: nat,
    pub offset: nat,
}

/// A type of a module.
#[verifier::ext_equal]
pub enum TypeModel {
    Numeric(NumericType),
    Array { base: nat, count: Option<u32>, stride: nat },
    Struct { name: Seq<char>, members: Seq<MemberModel>, span: nat },
    Image { kind: ImageKind, multisampled: bool },
    Sampler,
}

/// A global of a module.
#[verifier::ext_equal]
pub struct GlobalModel {
    pub name: Seq<char>,
    pub space: AddressSpace,
    pub group: u32,
    pub binding: u32,
    pub ty: nat,
}

/// Types of a module, in insertion order.
pub uninterp spec fn module_types(module: naga::Module) -> Seq<TypeModel>;

/// Globals of a module, in insertion order.
pub uninterp spec fn module_globals(module: naga::Module) -> Seq<GlobalModel>;

/// The module holds nothing but types of the forms of [`TypeModel`] and globals of the form of
/// [`GlobalModel`]. The members of every struct fit, as [`members_fit`] says.
pub uninterp spec fn declarations_only(module: naga::Module) -> bool;

/// What naga prints for the declarations: the WGSL text, or nothing where its validator or its
/// writer refuses them.
pub uninterp spec fn printed_module(
    types: Seq<TypeModel>,
    globals: Seq<GlobalModel>,
) -> Option<Seq<char>>;

/// Index of the first type that equals `ty`, or the number of types.
pub open spec fn slot(types: Seq<TypeModel>, ty: TypeModel) -> nat
    decreases types.len(),
{
    if types.len() == 0 || types[0] == ty {
        0
    } else {
        1 + slot(types.drop_first(), ty)
    }
}

/// The types with `ty` among them: appended, unless they hold it already.
pub open spec fn with_type(types: Seq<TypeModel>, ty: TypeModel) -> Seq<TypeModel> {
    if types.contains(ty) {
        types
    } else {
        types.push(ty)
    }
}

/// What an insertion leaves: the types with `ty`, the same globals, and declarations only.
pub open spec fn inserted(before: naga::Module, after: naga::Module, ty: TypeModel) -> bool {
    &&& module_types(after) == with_type(module_types(before), ty)
    &&& module_globals(after) == module_globals(before)
    &&& declarations_only(after)
}

/// The module holds declarations only and has room for `more` types.
pub open spec fn has_room(module: naga::Module, more: nat) -> bool {
    declarations_only(module) && module_types(module).len() + more < u32::MAX
}

/// An empty module. Wraps `naga::Module::default`: no types and no globals, and nothing else.
#[verifier::external_body]
fn default_module() -> (module: naga::Module)
    ensures
        module_types(module) == Seq::<TypeModel>::empty(),
        module_globals(module) == Seq::<GlobalModel>::empty(),
        declarations_only(module),
{
    naga::Module::default()
}

/// Inserts an unnamed numeric type. Wraps `naga::UniqueArena::insert`: a type that the arena
/// holds already keeps its handle, another is appended; the handle's index comes back.
#[verifier::external_body]
fn insert_numeric(module: &mut naga::Module, ty: NumericType) -> (index: usize)
    requires
        has_room(*old(module), 1),
    ensures
        inserted(*old(module), *final(module), TypeModel::Numeric(ty)),
        index as nat == slot(module_types(*old(module)), TypeModel::Numeric(ty)),
{
    let size = naga::VectorSize::Quad;
    let scalar = naga::Scalar::F32;
    let inner = match ty {
        NumericType::Float => naga::TypeInner::Scalar(scalar),
        NumericType::Uint => naga::TypeInner::Scalar(naga::Scalar::U32),
        NumericType::Vec4 => naga::TypeInner::Vector { size, scalar },
        NumericType::Mat4 => naga::TypeInner::Matrix { columns: size, rows: size, scalar },
    };
    module.types.insert(naga::Type { name: None, inner }, naga::Span::default()).index()
}

/// Inserts an unnamed array type over the type at index `base`, sized by its count or by the
/// buffer bound. Wraps `naga::UniqueArena::insert`.
#[verifier::external_body]
fn insert_array(module: &mut naga::Module, base: usize, count: Option<u32>, stride: u32) -> (index:
    usize)
    requires
        has_room(*old(module), 1),
        base < module_types(*old(module)).len(),
        count != Some(0u32),
    ensures
        inserted(
            *old(module),
            *final(module),
            (TypeModel::Array { base: base as nat, count, stride: stride as nat }),
        ),
        index as nat == slot(
            module_types(*old(module)),
            (TypeModel::Array { base: base as nat, count, stride: stride as nat }),
        ),
{
    let base = module.types.iter().nth(base).unwrap().0;
    let size = match count {
        Some(n) => naga::ArraySize::Constant(std::num::NonZeroU32::new(n).unwrap()),
        None => naga::ArraySize::Dynamic,
    };
    let inner = naga::TypeInner::Array { base, size, stride };
    module.types.insert(naga::Type { name: None, inner }, naga::Span::default()).index()
}

/// View of a list of members.
pub open spec fn member_models(members: Seq<Member>) -> Seq<MemberModel> {
    members.map_values(
        |m: Member| MemberModel { name: m.name@, ty: m.ty as nat, offset: m.offset as nat },
    )
}

/// Bytes of a type. An array sized by its buffer counts as one element.
pub open spec fn model_bytes(ty: TypeModel) -> nat {
    match ty {
        TypeModel::Numeric(NumericType::Float) => 4,
        TypeModel::Numeric(NumericType::Uint) => 4,
        TypeModel::Numeric(NumericType::Vec4) => 16,
        TypeModel::Numeric(NumericType::Mat4) => 64,
        TypeModel::Array { base, count: Some(n), stride } => n as nat * stride,
        TypeModel::Array { base, count: None, stride } => stride,
        TypeModel::Struct { name, members, span } => span,
        _ => 0,
    }
}

/// The member has a type that the types hold, is no struct itself and ends inside the span.
pub open spec fn member_fits(types: Seq<TypeModel>, member: MemberModel, span: nat) -> bool {
    &&& member.ty < types.len()
    &&& !(types[member.ty as int] is Struct)
    &&& member.offset + model_bytes(types[member.ty as int]) <= span
}

/// Every member fits.
pub open spec fn members_fit(types: Seq<TypeModel>, members: Seq<MemberModel>, span: nat) -> bool {
    forall|i: int| 0 <= i < members.len() ==> member_fits(types, #[trigger] members[i], span)
}

/// Inserts a named struct type whose members carry no interface binding. Wraps
/// `naga::UniqueArena::insert`. Only members that fit are taken: the validator adds offsets and
/// sizes without a test for overflow.
#[verifier::external_body]
fn insert_struct(module: &mut naga::Module, name: &str, members: &Vec<Member>, span: u32) -> (index:
    usize)
    requires
        has_room(*old(module), 1),
        members_fit(module_types(*old(module)), member_models(members@), span as nat),
    ensures
        inserted(
            *old(module),
            *final(module),
            (TypeModel::Struct { name: name@, members: member_models(members@), span: span as nat }),
        ),
        index as nat == slot(
            module_types(*old(module)),
            (TypeModel::Struct { name: name@, members: member_models(members@), span: span as nat }),
        ),
{
    let handles: Vec<_> = module.types.iter().map(|t| t.0).collect();
    let members = members.iter().map(|m| naga::StructMember {
        name: Some(m.name.clone()),
        ty: handles[m.ty],
        binding: None,
        offset: m.offset,
    });
    let inner = naga::TypeInner::Struct { members: members.collect(), span };
    let ty = naga::Type { name: Some(name.to_owned()), inner };
    module.types.insert(ty, naga::Span::default()).index()
}

/// Inserts an unnamed two-dimensional image type. Wraps `naga::UniqueArena::insert`.
#[verifier::external_body]
fn insert_image(module: &mut naga::Module, kind: ImageKind, multi: bool) -> (index: usize)
    requires
        has_room(*old(module), 1),
    ensures
        inserted(
            *old(module),
            *final(module),
            (TypeModel::Image { kind, multisampled: multi }),
        ),
        index as nat == slot(
            module_types(*old(module)),
            (TypeModel::Image { kind, multisampled: multi }),
        ),
{
    let class = match kind {
        ImageKind::Float => naga::ImageClass::Sampled { kind: naga::ScalarKind::Float, multi },
        ImageKind::Uint => naga::ImageClass::Sampled { kind: naga::ScalarKind::Uint, multi },
        ImageKind::Depth => naga::ImageClass::Depth { multi },
    };
    let dim = naga::ImageDimension::D2;
    let inner = naga::TypeInner::Image { dim, arrayed: false, class };
    module.types.insert(naga::Type { name: None, inner }, naga::Span::default()).index()
}

/// Inserts the unnamed type of samplers without comparison. Wraps `naga::UniqueArena::insert`.
#[verifier::external_body]
fn insert_sampler(module: &mut naga::Module) -> (index: usize)
    requires
        has_room(*old(module), 1),
    ensures
        inserted(*old(module), *final(module), TypeModel::Sampler),
        index as nat == slot(module_types(*old(module)), TypeModel::Sampler),
{
    let inner = naga::TypeInner::Sampler { comparison: false };
    module.types.insert(naga::Type { name: None, inner }, naga::Span::default()).index()
}

/// Span of the struct type at an index, or nothing for another type. Wraps the index operator of
/// `naga::UniqueArena`.
#[verifier::external_body]
fn struct_span(module: &naga::Module, ty: usize) -> (span: Option<u32>)
    requires
        declarations_only(*module),
        ty < module_types(*module).len(),
    ensures
        span is Some <==> module_types(*module)[ty as int] is Struct,
        span is Some ==> span->0 as nat == module_types(*module)[ty as int]->span,
{
    let handle = module.types.iter().nth(ty).unwrap().0;
    match module.types[handle].inner {
        naga::TypeInner::Struct { span, .. } => Some(span),
        _ => None,
    }
}

/// Appends a bound global without initializer. Wraps `naga::Arena::append`: the global comes last,
/// under the index that was the arena's length.
#[verifier::external_body]
fn append_global(
    module: &mut naga::Module,
    name: &str,
    space: AddressSpace,
    group: u32,
    binding: u32,
    ty: usize,
) -> (index: usize)
    requires
        declarations_only(*old(module)),
        ty < module_types(*old(module)).len(),
        module_globals(*old(module)).len() < u32::MAX,
    ensures
        module_types(*final(module)) == module_types(*old(module)),
        module_globals(*final(module)) == module_globals(*old(module)).push(
            (GlobalModel { name: name@, space, group, binding, ty: ty as nat }),
        ),
        declarations_only(*final(module)),
        index == module_globals(*old(module)).len(),
{
    let read = naga::StorageAccess::LOAD;
    let space = match space {
        AddressSpace::Uniform => naga::AddressSpace::Uniform,
        AddressSpace::StorageRead => naga::AddressSpace::Storage { access: read },
        AddressSpace::StorageReadWrite => naga::AddressSpace::Storage { access: read | naga::StorageAccess::STORE },
        AddressSpace::Handle => naga::AddressSpace::Handle,
    };
    let binding = Some(naga::ResourceBinding { group, binding });
    let ty = module.types.iter().nth(ty).unwrap().0;
    let memory_decorations = naga::MemoryDecorations::empty();
    let name = Some(name.to_owned());
    let global = naga::GlobalVariable { name, space, binding, ty, init: None, memory_decorations };
    module.global_variables.append(global, naga::Span::default()).index()
}

/// Prints a module. Wraps `naga::valid::Validator::validate`, with every check and capability on,
/// and `naga::back::wgsl::write_string` on what it returns; nothing where either fails.
#[verifier::external_body]
fn print_module(module: &naga::Module) -> (wgsl: Option<String>)
    requires
        declarations_only(*module),
    ensures
        wgsl is Some <==> printed_module(module_types(*module), module_globals(*module)) is Some,
        wgsl is Some ==> wgsl->0@ == printed_module(
            module_types(*module),
            module_globals(*module),
        )->0,
{
    let flags = naga::valid::ValidationFlags::all();
    let mut validator = naga::valid::Validator::new(flags, naga::valid::Capabilities::all());
    let info = validator.validate(module).ok()?;
    naga::back::wgsl::write_string(module, &info, naga::back::wgsl::WriterFlags::empty()).ok()
}

/// An empty module of declarations.
pub fn declaration_module() -> (module: naga::Module)
    ensures
        module_types(module) == Seq::<TypeModel>::empty(),
        module_globals(module) == Seq::<GlobalModel>::empty(),
        declarations_only(module),
{
    default_module()
}

pub(crate) proof fn lemma_slot(types: Seq<TypeModel>, ty: TypeModel)
    ensures
        slot(types, ty) < with_type(types, ty).len(),
        with_type(types, ty)[slot(types, ty) as int] == ty,
        types.contains(ty) ==> slot(types, ty) < types.len(),
        !types.contains(ty) ==> slot(types, ty) == types.len(),
    decreases types.len(),
{
    if types.len() > 0 && types[0] != ty {
        let rest = types.drop_first();
        lemma_slot(rest, ty);
        if types.contains(ty) {
            let k = choose|k: int| 0 <= k < types.len() && types[k] == ty;
            assert(rest[k - 1] == ty);
        } else {
            assert forall|k: int| 0 <= k < rest.len() implies rest[k] != ty by {
                assert(rest[k] == types[k + 1]);
            }
        }
        if rest.contains(ty) {
            let k = choose|k: int| 0 <= k < rest.len() && rest[k] == ty;
            assert(types[k + 1] == ty);
        }
    } else if types.len() > 0 {
        assert(types.contains(types[0]));
    }
}

/// The index that an insertion gives back names the inserted type, and indexes that were handed
/// out before keep their meaning.
pub proof fn indexes_stay_valid(types: Seq<TypeModel>, ty: TypeModel, k: int)
    requires
        0 <= k < types.len(),
    ensures
        slot(types, ty) < with_type(types, ty).len(),
        with_type(types, ty)[slot(types, ty) as int] == ty,
        with_type(types, ty)[k] == types[k],
        with_type(with_type(types, ty), ty) == with_type(types, ty),
{
    lemma_slot(types, ty);
    assert(with_type(types, ty).contains(with_type(types, ty)[slot(types, ty) as int]));
}

/// The type of a buffer member. `light` is the index of the light record.
pub open spec fn field_model(ty: FieldType, light: nat) -> TypeModel {
    match ty {
        FieldType::Float => TypeModel::Numeric(NumericType::Float),
        FieldType::Uint => TypeModel::Numeric(NumericType::Uint),
        FieldType::Vec4 => TypeModel::Numeric(NumericType::Vec4),
        FieldType::Mat4 => TypeModel::Numeric(NumericType::Mat4),
        FieldType::Lights => TypeModel::Array {
            base: light,
            count: Some(buffer_layouts::MAX_LIGHTS),
            stride: buffer_layouts::span_of(buffer_layouts::LIGHT@),
        },
    }
}

/// The types with those of all members.
pub open spec fn with_fields(types: Seq<TypeModel>, fields: Seq<Field>, light: nat) -> Seq<
    TypeModel,
>
    decreases fields.len(),
{
    if fields.len() == 0 {
        types
    } else {
        with_type(
            with_fields(types, fields.drop_last(), light),
            field_model(fields.last().1, light),
        )
    }
}

/// A member of a buffer struct: the index of its type is the one that its insertion gave.
pub open spec fn layout_member(
    types: Seq<TypeModel>,
    fields: Seq<Field>,
    light: nat,
    i: int,
) -> MemberModel {
    MemberModel {
        name: fields[i].0@,
        ty: slot(
            with_fields(types, fields.subrange(0, i), light),
            field_model(fields[i].1, light),
        ),
        offset: buffer_layouts::offset_of(fields, i),
    }
}

/// The struct type of a buffer layout.
pub open spec fn layout_model(
    types: Seq<TypeModel>,
    name: Seq<char>,
    fields: Seq<Field>,
    light: nat,
) -> TypeModel {
    TypeModel::Struct {
        name,
        members: Seq::new(fields.len(), |i: int| layout_member(types, fields, light, i)),
        span: buffer_layouts::span_of(fields),
    }
}

/// The types with a buffer struct and the types of its members.
pub open spec fn with_layout(
    types: Seq<TypeModel>,
    name: Seq<char>,
    fields: Seq<Field>,
    light: nat,
) -> Seq<TypeModel> {
    with_type(with_fields(types, fields, light), layout_model(types, name, fields, light))
}

/// Index of a buffer struct.
pub open spec fn layout_slot(
    types: Seq<TypeModel>,
    name: Seq<char>,
    fields: Seq<Field>,
    light: nat,
) -> nat {
    slot(with_fields(types, fields, light), layout_model(types, name, fields, light))
}

proof fn lemma_fields_grow(types: Seq<TypeModel>, fields: Seq<Field>, light: nat)
    ensures
        types.len() <= with_fields(types, fields, light).len() <= types.len() + fields.len(),
    decreases fields.len(),
{
    if fields.len() > 0 {
        lemma_fields_grow(types, fields.drop_last(), light);
    }
}

proof fn lemma_field_bytes(ty: FieldType, light: nat)
    ensures
        model_bytes(field_model(ty, light)) == ty.bytes(),
        !(field_model(ty, light) is Struct),
{
    buffer_layouts::lemma_light_span();
}

/// Inserts the type of a buffer member.
fn field_type(module: &mut naga::Module, ty: FieldType, light: usize) -> (index: usize)
    requires
        has_room(*old(module), 1),
        ty is Lights ==> light < module_types(*old(module)).len(),
    ensures
        inserted(*old(module), *final(module), field_model(ty, light as nat)),
        index as nat == slot(module_types(*old(module)), field_model(ty, light as nat)),
{
    match ty {
        FieldType::Float => insert_numeric(module, NumericType::Float),
        FieldType::Uint => insert_numeric(module, NumericType::Uint),
        FieldType::Vec4 => insert_numeric(module, NumericType::Vec4),
        FieldType::Mat4 => insert_numeric(module, NumericType::Mat4),
        FieldType::Lights => {
            proof {
                buffer_layouts::lemma_light_span();
            }
            let layout = buffer_layouts::struct_layout(&buffer_layouts::LIGHT);
            insert_array(module, light, Some(buffer_layouts::MAX_LIGHTS), layout.1)
        },
    }
}

/// Inserts a buffer struct. `light` is the index of the light record, for layouts that hold
/// lights.
pub fn layout_type(module: &mut naga::Module, name: &str, fields: &[Field], light: usize) -> (index:
    usize)
    requires
        has_room(*old(module), fields@.len() + 1),
        buffer_layouts::span_of(fields@) <= u32::MAX,
        forall|i: int|
            0 <= i < fields@.len() && (#[trigger] fields@[i]).1 is Lights ==> light < module_types(
                *old(module),
            ).len(),
    ensures
        module_types(*final(module)) == with_layout(
            module_types(*old(module)),
            name@,
            fields@,
            light as nat,
        ),
        module_globals(*final(module)) == module_globals(*old(module)),
        declarations_only(*final(module)),
        index as nat == layout_slot(
            module_types(*old(module)),
            name@,
            fields@,
            light as nat,
        ),
        module_types(*final(module)).len() <= module_types(*old(module)).len() + fields@.len() + 1,
        index < module_types(*final(module)).len(),
        module_types(*final(module))[index as int] is Struct,
{
    let ghost types = module_types(*module);
    let ghost globals = module_globals(*module);
    let layout = buffer_layouts::struct_layout(fields);
    let mut members: Vec<Member> = Vec::new();
    assert(fields@.subrange(0, 0) == Seq::<Field>::empty());
    for i in 0..fields.len()
        invariant
            buffer_layouts::span_of(fields@) <= u32::MAX,
            layout.0@.len() == fields@.len(),
            forall|k: int|
                0 <= k < fields@.len() ==> (#[trigger] layout.0@[k]) as nat
                    == buffer_layouts::offset_of(fields@, k),
            forall|k: int|
                0 <= k < fields@.len() && (#[trigger] fields@[k]).1 is Lights ==> light
                    < types.len(),
            types.len() + fields@.len() + 1 < u32::MAX,
            declarations_only(*module),
            module_globals(*module) == globals,
            module_types(*module) == with_fields(types, fields@.subrange(0, i as int), light as nat),
            members@.len() == i,
            forall|k: int|
                0 <= k < i ==> member_models(members@)[k] == #[trigger] layout_member(
                    types,
                    fields@,
                    light as nat,
                    k,
                ),
            forall|k: int|
                0 <= k < i ==> (#[trigger] members@[k]).ty < module_types(*module).len()
                    && module_types(*module)[members@[k].ty as int] == field_model(
                    fields@[k].1,
                    light as nat,
                ),
    {
        proof {
            let next = fields@.subrange(0, i + 1);
            assert(next.drop_last() == fields@.subrange(0, i as int));
            assert(next.last() == fields@[i as int]);
            lemma_fields_grow(types, fields@.subrange(0, i as int), light as nat);
            lemma_slot(module_types(*module), field_model(fields@[i as int].1, light as nat));
        }
        let ghost earlier = members@;
        let ty: usize = field_type(module, fields[i].1, light);
        let member = Member { name: fields[i].0.to_owned(), ty, offset: layout.0[i] };
        members.push(member);
        proof {
            assert forall|k: int| 0 <= k < i + 1 implies member_models(members@)[k]
                == #[trigger] layout_member(types, fields@, light as nat, k) by {
                if k < i {
                    assert(member_models(earlier)[k] == member_models(members@)[k]);
                }
            }
        }
    }
    proof {
        assert(fields@.subrange(0, fields@.len() as int) == fields@);
        lemma_fields_grow(types, fields@, light as nat);
        let wanted = Seq::new(
            fields@.len(),
            |i: int| layout_member(types, fields@, light as nat, i),
        );
        assert forall|k: int| 0 <= k < wanted.len() implies member_models(members@)[k]
            == wanted[k] by {
            assert(wanted[k] == layout_member(types, fields@, light as nat, k));
        }
        assert(member_models(members@) =~= wanted);
        lemma_slot(
            with_fields(types, fields@, light as nat),
            layout_model(types, name@, fields@, light as nat),
        );
        assert forall|k: int| 0 <= k < members@.len() implies member_fits(
            module_types(*module),
            #[trigger] member_models(members@)[k],
            layout.1 as nat,
        ) by {
            assert(members@[k].ty < module_types(*module).len());
            assert(wanted[k] == layout_member(types, fields@, light as nat, k));
            buffer_layouts::lemma_member_within(fields@, k);
            lemma_field_bytes(fields@[k].1, light as nat);
        }
    }
    insert_struct(module, name, &members, layout.1)
}

/// Inserts the camera record.
pub fn camera_type(module: &mut naga::Module) -> (index: usize)
    requires
        has_room(*old(module), 4),
    ensures
        module_types(*final(module)) == with_layout(
            module_types(*old(module)),
            buffer_layouts::CAMERA_NAME@,
            buffer_layouts::CAMERA@,
            0,
        ),
        module_globals(*final(module)) == module_globals(*old(module)),
        declarations_only(*final(module)),
        index as nat == layout_slot(
            module_types(*old(module)),
            buffer_layouts::CAMERA_NAME@,
            buffer_layouts::CAMERA@,
            0,
        ),
        module_types(*final(module)).len() <= module_types(*old(module)).len() + 4,
        index < module_types(*final(module)).len(),
        module_types(*final(module))[index as int] is Struct,
{
    proof {
        buffer_layouts::lemma_span_bound(buffer_layouts::CAMERA@);
    }
    layout_type(module, buffer_layouts::CAMERA_NAME, &buffer_layouts::CAMERA, 0)
}

/// Inserts the light record.
pub fn light_type(module: &mut naga::Module) -> (index: usize)
    requires
        has_room(*old(module), 3),
    ensures
        module_types(*final(module)) == with_layout(
            module_types(*old(module)),
            buffer_layouts::LIGHT_NAME@,
            buffer_layouts::LIGHT@,
            0,
        ),
        module_globals(*final(module)) == module_globals(*old(module)),
        declarations_only(*final(module)),
        index as nat == layout_slot(
            module_types(*old(module)),
            buffer_layouts::LIGHT_NAME@,
            buffer_layouts::LIGHT@,
            0,
        ),
        module_types(*final(module)).len() <= module_types(*old(module)).len() + 3,
        index < module_types(*final(module)).len(),
        module_types(*final(module))[index as int] is Struct,
{
    proof {
        buffer_layouts::lemma_span_bound(buffer_layouts::LIGHT@);
    }
    layout_type(module, buffer_layouts::LIGHT_NAME, &buffer_layouts::LIGHT, 0)
}

/// Types with the light record.
pub open spec fn with_light(types: Seq<TypeModel>) -> Seq<TypeModel> {
    with_layout(types, buffer_layouts::LIGHT_NAME@, buffer_layouts::LIGHT@, 0)
}

/// Index of the light record.
pub open spec fn light_slot(types: Seq<TypeModel>) -> nat {
    layout_slot(types, buffer_layouts::LIGHT_NAME@, buffer_layouts::LIGHT@, 0)
}

/// Inserts the light record and the block that holds the lights of a frame.
pub fn lighting_type(module: &mut naga::Module) -> (index: usize)
    requires
        has_room(*old(module), 7),
    ensures
        module_types(*final(module)) == with_layout(
            with_light(module_types(*old(module))),
            buffer_layouts::LIGHTING_NAME@,
            buffer_layouts::LIGHTING@,
            light_slot(module_types(*old(module))),
        ),
        module_globals(*final(module)) == module_globals(*old(module)),
        declarations_only(*final(module)),
        index as nat == layout_slot(
            with_light(module_types(*old(module))),
            buffer_layouts::LIGHTING_NAME@,
            buffer_layouts::LIGHTING@,
            light_slot(module_types(*old(module))),
        ),
        module_types(*final(module)).len() <= module_types(*old(module)).len() + 7,
        index < module_types(*final(module)).len(),
        module_types(*final(module))[index as int] is Struct,
{
    let ghost types = module_types(*module);
    let light: usize = light_type(module);
    proof {
        lemma_fields_grow(types, buffer_layouts::LIGHT@, 0);
        lemma_slot(
            with_fields(types, buffer_layouts::LIGHT@, 0),
            layout_model(types, buffer_layouts::LIGHT_NAME@, buffer_layouts::LIGHT@, 0),
        );
        buffer_layouts::lemma_span_bound(buffer_layouts::LIGHTING@);
    }
    layout_type(module, buffer_layouts::LIGHTING_NAME, &buffer_layouts::LIGHTING, light)
}

/// A slot of the material record.
pub open spec fn openpbr_member(types: Seq<TypeModel>, i: int) -> MemberModel {
    MemberModel {
        name: openpbr::OPENPBR_SLOTS@[i]@,
        ty: slot(types, TypeModel::Numeric(NumericType::Vec4)),
        offset: (i * openpbr::SLOT_BYTES) as nat,
    }
}

/// The material record.
pub open spec fn openpbr_model(types: Seq<TypeModel>) -> TypeModel {
    TypeModel::Struct {
        name: openpbr::OPENPBR_WGSL_NAME@,
        members: Seq::new(20, |i: int| openpbr_member(types, i)),
        span: openpbr::OPENPBR_MATERIAL_SIZE as nat,
    }
}

/// Inserts the material record: twenty vectors, one behind the other.
pub fn openpbr_type(module: &mut naga::Module) -> (index: usize)
    requires
        has_room(*old(module), 2),
    ensures
        module_types(*final(module)) == with_type(
            with_type(module_types(*old(module)), TypeModel::Numeric(NumericType::Vec4)),
            openpbr_model(module_types(*old(module))),
        ),
        module_globals(*final(module)) == module_globals(*old(module)),
        declarations_only(*final(module)),
        index as nat == slot(
            with_type(module_types(*old(module)), TypeModel::Numeric(NumericType::Vec4)),
            openpbr_model(module_types(*old(module))),
        ),
        module_types(*final(module)).len() <= module_types(*old(module)).len() + 2,
        index < module_types(*final(module)).len(),
        module_types(*final(module))[index as int] is Struct,
{
    let ghost types = module_types(*module);
    let ty: usize = insert_numeric(module, NumericType::Vec4);
    proof {
        lemma_slot(types, TypeModel::Numeric(NumericType::Vec4));
    }
    let mut members: Vec<Member> = Vec::new();
    for i in 0..20usize
        invariant
            ty as nat == slot(types, TypeModel::Numeric(NumericType::Vec4)),
            ty < module_types(*module).len(),
            members@.len() == i,
            forall|k: int|
                0 <= k < i ==> member_models(members@)[k] == #[trigger] openpbr_member(types, k),
            forall|k: int|
                0 <= k < i ==> (#[trigger] members@[k]).ty == ty && members@[k].offset == k
                    * openpbr::SLOT_BYTES,
    {
        let ghost earlier = members@;
        let member = Member {
            name: openpbr::OPENPBR_SLOTS[i].to_owned(),
            ty,
            offset: (i as u32) * openpbr::SLOT_BYTES,
        };
        members.push(member);
        proof {
            assert forall|k: int| 0 <= k < i + 1 implies member_models(members@)[k]
                == #[trigger] openpbr_member(types, k) by {
                if k < i {
                    assert(member_models(earlier)[k] == member_models(members@)[k]);
                }
            }
        }
    }
    proof {
        let wanted = Seq::new(20, |i: int| openpbr_member(types, i));
        assert forall|k: int| 0 <= k < wanted.len() implies member_models(members@)[k]
            == wanted[k] by {
            assert(wanted[k] == openpbr_member(types, k));
        }
        assert(member_models(members@) =~= wanted);
        lemma_slot(module_types(*module), openpbr_model(types));
    }
    insert_struct(
        module,
        openpbr::OPENPBR_WGSL_NAME,
        &members,
        openpbr::OPENPBR_MATERIAL_SIZE,
    )
}

/// What the image of a texture resource holds.
pub open spec fn image_kind(kind: ResourceKind) -> ImageKind {
    match kind {
        ResourceKind::TextureUint => ImageKind::Uint,
        ResourceKind::TextureDepth => ImageKind::Depth,
        _ => ImageKind::Float,
    }
}

/// Where a resource lives.
pub open spec fn resource_space(kind: ResourceKind) -> AddressSpace {
    match kind {
        ResourceKind::Uniform(_) => AddressSpace::Uniform,
        ResourceKind::StorageRead(_) => AddressSpace::StorageRead,
        ResourceKind::StorageReadArray(_) => AddressSpace::StorageRead,
        ResourceKind::StorageRw(_) => AddressSpace::StorageReadWrite,
        _ => AddressSpace::Handle,
    }
}

/// The type that a resource adds to a module: an array of the struct at index `ty` for an array
/// resource, an image or a sampler. Other buffers use the type at index `ty`.
pub open spec fn resource_model(
    types: Seq<TypeModel>,
    kind: ResourceKind,
    ty: nat,
    multisampled: bool,
) -> Option<TypeModel> {
    match kind {
        ResourceKind::StorageReadArray(_) => Some(
            TypeModel::Array { base: ty, count: None, stride: types[ty as int]->span },
        ),
        ResourceKind::Sampler => Some(TypeModel::Sampler),
        ResourceKind::TextureFloat => Some(
            TypeModel::Image { kind: image_kind(kind), multisampled },
        ),
        ResourceKind::TextureUint => Some(TypeModel::Image { kind: image_kind(kind), multisampled }),
        ResourceKind::TextureDepth => Some(
            TypeModel::Image { kind: image_kind(kind), multisampled },
        ),
        _ => None,
    }
}

/// Types of a module with those that a resource needs.
pub open spec fn with_resource(
    types: Seq<TypeModel>,
    kind: ResourceKind,
    ty: nat,
    multisampled: bool,
) -> Seq<TypeModel> {
    match resource_model(types, kind, ty, multisampled) {
        Some(model) => with_type(types, model),
        None => types,
    }
}

/// The global of a resource.
pub open spec fn resource_global(
    types: Seq<TypeModel>,
    r: Resource,
    ty: nat,
    multisampled: bool,
) -> GlobalModel {
    GlobalModel {
        name: r.name@,
        space: resource_space(r.kind),
        group: r.group,
        binding: r.binding,
        ty: match resource_model(types, r.kind, ty, multisampled) {
            Some(model) => slot(types, model),
            None => ty,
        },
    }
}

/// Inserts a resource as a global. `ty` is the index of the struct type of a buffer; textures and
/// samplers ignore it and bring types of their own. Array resources take the span of the struct as
/// their stride.
pub fn add_global(module: &mut naga::Module, ty: usize, r: &Resource, multisampled: bool) -> (index:
    usize)
    requires
        has_room(*old(module), 1),
        module_globals(*old(module)).len() < u32::MAX,
        r.kind.is_buffer() ==> ty < module_types(*old(module)).len(),
        r.kind is StorageReadArray ==> module_types(*old(module))[ty as int] is Struct,
    ensures
        module_types(*final(module)) == with_resource(
            module_types(*old(module)),
            r.kind,
            ty as nat,
            multisampled,
        ),
        module_globals(*final(module)) == module_globals(*old(module)).push(
            resource_global(module_types(*old(module)), *r, ty as nat, multisampled),
        ),
        declarations_only(*final(module)),
        index == module_globals(*old(module)).len(),
        module_types(*final(module)).len() <= module_types(*old(module)).len() + 1,
{
    let ghost types = module_types(*module);
    proof {
        match resource_model(types, r.kind, ty as nat, multisampled) {
            Some(model) => lemma_slot(types, model),
            None => {},
        }
    }
    match r.kind {
        ResourceKind::Uniform(_) => {
            append_global(module, r.name, AddressSpace::Uniform, r.group, r.binding, ty)
        },
        ResourceKind::StorageRead(_) => {
            append_global(module, r.name, AddressSpace::StorageRead, r.group, r.binding, ty)
        },
        ResourceKind::StorageRw(_) => {
            append_global(module, r.name, AddressSpace::StorageReadWrite, r.group, r.binding, ty)
        },
        ResourceKind::StorageReadArray(_) => {
            let stride: u32 = match struct_span(module, ty) {
                Some(span) => span,
                None => 0,
            };
            let array: usize = insert_array(module, ty, None, stride);
            append_global(module, r.name, AddressSpace::StorageRead, r.group, r.binding, array)
        },
        ResourceKind::TextureFloat => {
            let image: usize = insert_image(module, ImageKind::Float, multisampled);
            append_global(module, r.name, AddressSpace::Handle, r.group, r.binding, image)
        },
        ResourceKind::TextureUint => {
            let image: usize = insert_image(module, ImageKind::Uint, multisampled);
            append_global(module, r.name, AddressSpace::Handle, r.group, r.binding, image)
        },
        ResourceKind::TextureDepth => {
            let image: usize = insert_image(module, ImageKind::Depth, multisampled);
            append_global(module, r.name, AddressSpace::Handle, r.group, r.binding, image)
        },
        ResourceKind::Sampler => {
            let sampler: usize = insert_sampler(module);
            append_global(module, r.name, AddressSpace::Handle, r.group, r.binding, sampler)
        },
    }
}

/// The text with the read access of one resource spelled out. The writer prints read-only storage
/// without its access, which WGSL would read as read-write.
pub open spec fn spelled_access(wgsl: Seq<char>, r: Resource) -> Seq<char> {
    match r.kind {
        ResourceKind::StorageRead(_) => text::replaced(
            wgsl,
            "var<storage> "@ + r.name@,
            "var<storage, read> "@ + r.name@,
        ),
        ResourceKind::StorageReadArray(_) => text::replaced(
            wgsl,
            "var<storage> "@ + r.name@,
            "var<storage, read> "@ + r.name@,
        ),
        _ => wgsl,
    }
}

/// The text with the read access of every read-only storage row spelled out.
pub open spec fn spelled_accesses(wgsl: Seq<char>, table: Seq<Resource>) -> Seq<char>
    decreases table.len(),
{
    if table.len() == 0 {
        wgsl
    } else {
        spelled_access(spelled_accesses(wgsl, table.drop_last()), table.last())
    }
}

/// Spells out the read access of every read-only storage row of the table.
pub fn spell_accesses(wgsl: String, table: &[Resource]) -> (out: String)
    ensures
        out@ == spelled_accesses(wgsl@, table@),
{
    let ghost before = wgsl@;
    let mut wgsl = wgsl;
    assert(table@.subrange(0, 0) == Seq::<Resource>::empty());
    for i in 0..table.len()
        invariant
            wgsl@ == spelled_accesses(before, table@.subrange(0, i as int)),
    {
        proof {
            let next = table@.subrange(0, i + 1);
            assert(next.drop_last() == table@.subrange(0, i as int));
            assert(next.last() == table@[i as int]);
        }
        let read_only = match table[i].kind {
            ResourceKind::StorageRead(_) => true,
            ResourceKind::StorageReadArray(_) => true,
            _ => false,
        };
        if read_only {
            let mut bare: String = "var<storage> ".to_owned();
            bare.append(table[i].name);
            let mut spelled: String = "var<storage, read> ".to_owned();
            spelled.append(table[i].name);
            proof {
                reveal_strlit("var<storage> ");
            }
            wgsl = text::replace(wgsl.as_str(), bare.as_str(), spelled.as_str());
        }
    }
    assert(table@.subrange(0, table@.len() as int) == table@);
    wgsl
}

/// Validates and prints the module, with the read access of the table's read-only storage spelled
/// out. Gives nothing where naga refuses the module.
pub fn write_module(module: &naga::Module, table: &[Resource]) -> (wgsl: Option<String>)
    requires
        declarations_only(*module),
    ensures
        wgsl is Some <==> printed_module(module_types(*module), module_globals(*module)) is Some,
        wgsl is Some ==> wgsl->0@ == spelled_accesses(
            printed_module(module_types(*module), module_globals(*module))->0,
            table@,
        ),
{
    match print_module(module) {
        Some(printed) => Some(spell_accesses(printed, table)),
        None => None,
    }
}

} // verus!
