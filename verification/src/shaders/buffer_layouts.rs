//! Layouts of the buffers that shaders read: members, offsets and spans.
use vstd::prelude::*;
#[allow(unused_imports)]
use vstd::string::*;

verus! {

/// Number of lights in a [`LIGHTING`] block.
pub const MAX_LIGHTS: u32 = 4;

/// Type of a buffer member.
#[derive(Clone, Copy, Debug, PartialEq, Eq, Structural)]
pub enum FieldType {
    Float,
    Uint,
    Vec4,
    Mat4,
    /// Four [`LIGHT`] records.
    Lights,
}

/// A buffer member: its name and its type.
pub type Field = (&'static str, FieldType);

/// Name of [`CAMERA`].
pub const CAMERA_NAME: &'static str = "Camera";

/// Camera of the frame.
pub const CAMERA: [Field; 3] = [
    ("view_proj", FieldType::Mat4),
    ("inv_view_proj", FieldType::Mat4),
    ("camera_pos", FieldType::Vec4),
];

/// Name of [`PER_OBJECT`].
pub const PER_OBJECT_NAME: &'static str = "PerObject";

/// One drawn instance.
pub const PER_OBJECT: [Field; 3] = [
    ("model", FieldType::Mat4),
    ("normal_matrix", FieldType::Mat4),
    ("material_index", FieldType::Uint),
];

/// Name of [`LIGHT`].
pub const LIGHT_NAME: &'static str = "Light";

/// One light.
pub const LIGHT: [Field; 2] = [("direction", FieldType::Vec4), ("color", FieldType::Vec4)];

/// Name of [`LIGHTING`].
pub const LIGHTING_NAME: &'static str = "Lighting";

/// Lights of the frame.
pub const LIGHTING: [Field; 3] = [
    ("ambient_color", FieldType::Vec4),
    ("lights", FieldType::Lights),
    ("light_count", FieldType::Uint),
];

/// Name of [`BLOOM`].
pub const BLOOM_NAME: &'static str = "BloomParams";

/// Parameters of the bloom and composite passes.
pub const BLOOM: [Field; 3] = [
    ("threshold", FieldType::Float),
    ("intensity", FieldType::Float),
    ("mode", FieldType::Uint),
];

impl FieldType {
    /// Spelling of the type.
    pub open spec fn type_text(self) -> Seq<char> {
        match self {
            FieldType::Float => "f32"@,
            FieldType::Uint => "u32"@,
            FieldType::Vec4 => "vec4<f32>"@,
            FieldType::Mat4 => "mat4x4<f32>"@,
            FieldType::Lights => "array<Light, 4>"@,
        }
    }

    /// Spelling of the type.
    pub fn wgsl_ty(&self) -> (out: &'static str)
        ensures
            out@ == self.type_text(),
    {
        match self {
            FieldType::Float => "f32",
            FieldType::Uint => "u32",
            FieldType::Vec4 => "vec4<f32>",
            FieldType::Mat4 => "mat4x4<f32>",
            FieldType::Lights => "array<Light, 4>",
        }
    }

    /// Bytes of the type.
    pub open spec fn bytes(self) -> nat {
        match self {
            FieldType::Float => 4,
            FieldType::Uint => 4,
            FieldType::Vec4 => 16,
            FieldType::Mat4 => 64,
            FieldType::Lights => 128,
        }
    }

    /// Bytes of the type.
    pub fn size(&self) -> (bytes: u32)
        ensures
            bytes == self.bytes(),
    {
        match self {
            FieldType::Float => 4,
            FieldType::Uint => 4,
            FieldType::Vec4 => 16,
            FieldType::Mat4 => 64,
            FieldType::Lights => 128,
        }
    }

    /// Alignment of the type.
    pub open spec fn alignment(self) -> nat {
        match self {
            FieldType::Float => 4,
            FieldType::Uint => 4,
            _ => 16,
        }
    }

    /// Alignment of the type.
    pub fn align(&self) -> (bytes: u32)
        ensures
            bytes == self.alignment(),
    {
        match self {
            FieldType::Float => 4,
            FieldType::Uint => 4,
            _ => 16,
        }
    }
}

/// The least multiple of `align` that is not below `n`.
pub open spec fn round_up(n: nat, align: nat) -> nat {
    ((n + align - 1) / align as int * align) as nat
}

/// End of the last member, without padding behind it.
pub open spec fn end_of(fields: Seq<Field>) -> nat
    decreases fields.len(),
{
    if fields.len() == 0 {
        0
    } else {
        round_up(end_of(fields.drop_last()), fields.last().1.alignment()) + fields.last().1.bytes()
    }
}

/// Offset of a member.
pub open spec fn offset_of(fields: Seq<Field>, i: int) -> nat {
    round_up(end_of(fields.subrange(0, i)), fields[i].1.alignment())
}

/// Alignment of a struct: the largest alignment of its members.
pub open spec fn struct_alignment(fields: Seq<Field>) -> nat
    decreases fields.len(),
{
    if fields.len() == 0 {
        4
    } else if fields.last().1.alignment() > struct_alignment(fields.drop_last()) {
        fields.last().1.alignment()
    } else {
        struct_alignment(fields.drop_last())
    }
}

/// Bytes of a struct, padding included.
pub open spec fn span_of(fields: Seq<Field>) -> nat {
    round_up(end_of(fields), struct_alignment(fields))
}

/// One line per member.
pub open spec fn fields_text(fields: Seq<Field>) -> Seq<char>
    decreases fields.len(),
{
    if fields.len() == 0 {
        Seq::empty()
    } else {
        fields_text(fields.drop_last()) + ("    "@ + fields.last().0@ + ": "@
            + fields.last().1.type_text() + ",\n"@)
    }
}

/// Declaration of a buffer struct.
pub open spec fn struct_text(name: Seq<char>, fields: Seq<Field>) -> Seq<char> {
    "struct "@ + name + " {\n"@ + fields_text(fields) + "}\n"@
}

/// Declaration of a buffer struct.
pub fn struct_source(name: &str, fields: &[Field]) -> (out: String)
    ensures
        out@ == struct_text(name@, fields@),
{
    let mut out: String = "struct ".to_owned();
    out.append(name);
    out.append(" {\n");
    let ghost before = out@;
    assert(fields@.subrange(0, 0) == Seq::<Field>::empty());
    assert(before + Seq::<char>::empty() == before);
    for i in 0..fields.len()
        invariant
            out@ == before + fields_text(fields@.subrange(0, i as int)),
    {
        proof {
            let next = fields@.subrange(0, i + 1);
            assert(next.drop_last() == fields@.subrange(0, i as int));
            assert(next.last() == fields@[i as int]);
        }
        out.append("    ");
        out.append(fields[i].0);
        out.append(": ");
        out.append(fields[i].1.wgsl_ty());
        out.append(",\n");
        assert(out@ == before + fields_text(fields@.subrange(0, i + 1)));
    }
    assert(fields@.subrange(0, fields@.len() as int) == fields@);
    out.append("}\n");
    out
}

/// The least multiple of `align` that is not below `n`.
fn rounded(n: u32, align: u32) -> (r: u32)
    requires
        align == 4 || align == 16,
        round_up(n as nat, align as nat) <= u32::MAX,
    ensures
        r == round_up(n as nat, align as nat),
        n <= r < n + align,
        r % align == 0,
{
    proof {
        if align == 4 {
            assert(round_up(n as nat, 4) == (n + 3) / 4 * 4);
        } else {
            assert(round_up(n as nat, 16) == (n + 15) / 16 * 16);
        }
    }
    let over: u32 = n % align;
    if over == 0 {
        n
    } else {
        n + (align - over)
    }
}

proof fn lemma_end_bound(fields: Seq<Field>)
    ensures
        end_of(fields) <= 144 * fields.len(),
    decreases fields.len(),
{
    if fields.len() > 0 {
        lemma_end_bound(fields.drop_last());
        lemma_round_up(end_of(fields.drop_last()), fields.last().1.alignment());
    }
}

/// A struct of few members has a small span.
pub(crate) proof fn lemma_span_bound(fields: Seq<Field>)
    ensures
        span_of(fields) <= 144 * fields.len() + 16,
{
    lemma_end_bound(fields);
    lemma_alignment_values(fields);
    lemma_round_up(end_of(fields), struct_alignment(fields));
}

/// Offsets of the members and the span of the struct.
pub fn struct_layout(fields: &[Field]) -> (layout: (Vec<u32>, u32))
    requires
        span_of(fields@) <= u32::MAX,
    ensures
        layout.0@.len() == fields@.len(),
        forall|i: int|
            0 <= i < fields@.len() ==> (#[trigger] layout.0@[i]) as nat == offset_of(fields@, i),
        layout.1 as nat == span_of(fields@),
{
    let mut offsets: Vec<u32> = Vec::new();
    let mut end: u32 = 0;
    let mut align: u32 = 4;
    assert(fields@.subrange(0, 0) == Seq::<Field>::empty());
    for i in 0..fields.len()
        invariant
            span_of(fields@) <= u32::MAX,
            end as nat == end_of(fields@.subrange(0, i as int)),
            align as nat == struct_alignment(fields@.subrange(0, i as int)),
            align == 4 || align == 16,
            offsets@.len() == i,
            forall|k: int|
                0 <= k < i ==> (#[trigger] offsets@[k]) as nat == offset_of(fields@, k),
    {
        proof {
            let next = fields@.subrange(0, i + 1);
            assert(next.drop_last() == fields@.subrange(0, i as int));
            assert(next.last() == fields@[i as int]);
            lemma_member_within(fields@, i as int);
        }
        let field_align: u32 = fields[i].1.align();
        let offset: u32 = rounded(end, field_align);
        offsets.push(offset);
        end = offset + fields[i].1.size();
        if field_align > align {
            align = field_align;
        }
    }
    proof {
        assert(fields@.subrange(0, fields@.len() as int) == fields@);
    }
    (offsets, rounded(end, align))
}

/// Every member starts at a multiple of its alignment, behind the members before it, and ends
/// within the struct.
pub proof fn members_are_aligned_and_disjoint(fields: Seq<Field>, i: int, j: int)
    requires
        0 <= i < j < fields.len(),
    ensures
        offset_of(fields, i) % fields[i].1.alignment() == 0,
        offset_of(fields, i) + fields[i].1.bytes() <= offset_of(fields, j),
        offset_of(fields, j) + fields[j].1.bytes() <= span_of(fields),
        span_of(fields) % struct_alignment(fields) == 0,
{
    lemma_end_monotone(fields, i + 1, j);
    lemma_end_monotone(fields, j + 1, fields.len() as int);
    lemma_end_step(fields, i);
    lemma_end_step(fields, j);
    assert(fields.subrange(0, fields.len() as int) == fields);
    lemma_alignment_values(fields);
    lemma_round_up(end_of(fields.subrange(0, i)), fields[i].1.alignment());
    lemma_round_up(end_of(fields.subrange(0, j)), fields[j].1.alignment());
    lemma_round_up(end_of(fields), struct_alignment(fields));
}

proof fn lemma_round_up(n: nat, align: nat)
    requires
        align == 4 || align == 16,
    ensures
        n <= round_up(n, align) < n + align,
        round_up(n, align) % align == 0,
{
}

proof fn lemma_alignment_values(fields: Seq<Field>)
    ensures
        struct_alignment(fields) == 4 || struct_alignment(fields) == 16,
    decreases fields.len(),
{
    if fields.len() > 0 {
        lemma_alignment_values(fields.drop_last());
    }
}

proof fn lemma_end_step(fields: Seq<Field>, i: int)
    requires
        0 <= i < fields.len(),
    ensures
        end_of(fields.subrange(0, i + 1)) == offset_of(fields, i) + fields[i].1.bytes(),
{
    assert(fields.subrange(0, i + 1).drop_last() == fields.subrange(0, i));
}

pub(crate) proof fn lemma_member_within(fields: Seq<Field>, i: int)
    requires
        0 <= i < fields.len(),
    ensures
        offset_of(fields, i) + fields[i].1.bytes() <= span_of(fields),
{
    lemma_end_step(fields, i);
    lemma_end_monotone(fields, i + 1, fields.len() as int);
    assert(fields.subrange(0, fields.len() as int) == fields);
    lemma_alignment_values(fields);
    lemma_round_up(end_of(fields), struct_alignment(fields));
}

pub(crate) proof fn lemma_light_span()
    ensures
        span_of(LIGHT@) == 32,
{
    let one = LIGHT@.drop_last();
    assert(one.len() == 1 && one.last().1 == FieldType::Vec4);
    assert(one.drop_last() == Seq::<Field>::empty());
    assert(end_of(one.drop_last()) == 0);
    assert(struct_alignment(one.drop_last()) == 4);
    lemma_round_up(0, 16);
    lemma_round_up(16, 16);
    lemma_round_up(32, 16);
    assert(end_of(one) == round_up(0, 16) + 16);
    assert(end_of(LIGHT@) == round_up(16, 16) + 16);
    assert(struct_alignment(one) == 16);
}

proof fn lemma_end_monotone(fields: Seq<Field>, i: int, j: int)
    requires
        0 <= i <= j <= fields.len(),
    ensures
        end_of(fields.subrange(0, i)) <= end_of(fields.subrange(0, j)),
    decreases j - i,
{
    if i < j {
        lemma_end_monotone(fields, i, j - 1);
        lemma_end_step(fields, j - 1);
        lemma_round_up(end_of(fields.subrange(0, j - 1)), fields[j - 1].1.alignment());
    }
}

} // verus!
