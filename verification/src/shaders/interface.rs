//! Interface structs of the passes: vertex inputs, varyings and fragment outputs.
use vstd::prelude::*;
#[allow(unused_imports)]
use vstd::string::*;

use crate::text;

verus! {

/// A member of an interface struct: its attributes, its name and its type.
pub type Varying = (&'static str, &'static str, &'static str);

/// Name of [`HDR_VERTEX_OUTPUT`].
pub const HDR_VERTEX_OUTPUT_NAME: &'static str = "CompositeVertexOutput";

/// Output of the composite vertex stage (full-screen quad).
pub const HDR_VERTEX_OUTPUT: [Varying; 2] = [
    ("@builtin(position)", "clip_position", "vec4<f32>"),
    ("@location(0)", "uv", "vec2<f32>"),
];

/// Name of [`HDR_FRAGMENT_OUT`].
pub const HDR_FRAGMENT_OUT_NAME: &'static str = "QuadVertexOutput";

/// Varyings of the composite and lighting quads.
pub const HDR_FRAGMENT_OUT: [Varying; 2] = [
    ("@builtin(position)", "clip_position", "vec4<f32>"),
    ("@location(0)", "uv", "vec2<f32>"),
];

/// Name of [`BLOOM_VERTEX_OUT`].
pub const BLOOM_VERTEX_OUT_NAME: &'static str = "BloomVertexOutput";

/// Varyings of the bloom quad.
pub const BLOOM_VERTEX_OUT: [Varying; 2] = [
    ("@builtin(position)", "clip_position", "vec4<f32>"),
    ("@location(0)", "uv", "vec2<f32>"),
];

/// Name of [`UI_COMPOSITE_OUT`].
pub const UI_COMPOSITE_OUT_NAME: &'static str = "VertexOutput";

/// Varyings of the quad that mixes in the user interface.
pub const UI_COMPOSITE_OUT: [Varying; 2] = [
    ("@builtin(position)", "position", "vec4<f32>"),
    ("@location(0)", "uv", "vec2<f32>"),
];

/// Name of [`GBUFFER_VERTEX_INPUT`].
pub const GBUFFER_VERTEX_INPUT_NAME: &'static str = "VertexInput";

/// Mesh attributes of the g-buffer and forward vertex stage.
pub const GBUFFER_VERTEX_INPUT: [Varying; 4] = [
    ("@location(0)", "position", "vec3<f32>"),
    ("@location(1)", "normal", "vec3<f32>"),
    ("@location(2)", "uv", "vec2<f32>"),
    ("@location(3)", "tangent", "vec3<f32>"),
];

/// Name of [`GBUFFER_VERTEX_OUTPUT`].
pub const GBUFFER_VERTEX_OUTPUT_NAME: &'static str = "VertexOutput";

/// World-space varyings of the g-buffer and forward vertex stage.
pub const GBUFFER_VERTEX_OUTPUT: [Varying; 6] = [
    ("@builtin(position)", "clip_position", "vec4<f32>"),
    ("@location(0)", "world_position", "vec3<f32>"),
    ("@location(1)", "world_normal", "vec3<f32>"),
    ("@location(2)", "uv", "vec2<f32>"),
    ("@location(3)", "world_tangent", "vec3<f32>"),
    ("@location(4) @interpolate(flat)", "material_index", "u32"),
];

/// Name of [`GBUFFER_FRAGMENT_INPUT`].
pub const GBUFFER_FRAGMENT_INPUT_NAME: &'static str = "FragmentInput";

/// Input of the g-buffer and forward fragment stages.
pub const GBUFFER_FRAGMENT_INPUT: [Varying; 5] = [
    ("@location(0)", "world_position", "vec3<f32>"),
    ("@location(1)", "world_normal", "vec3<f32>"),
    ("@location(2)", "uv", "vec2<f32>"),
    ("@location(3)", "world_tangent", "vec3<f32>"),
    ("@location(4) @interpolate(flat)", "material_index", "u32"),
];

/// Name of [`GBUFFER_OUTPUT`].
pub const GBUFFER_OUTPUT_NAME: &'static str = "GBufferOutput";

/// The five targets that the g-buffer fragment stage writes.
pub const GBUFFER_OUTPUT: [Varying; 5] = [
    ("@location(0)", "albedo", "vec4<f32>"),
    ("@location(1)", "normal", "vec2<f32>"),
    ("@location(2)", "material_id", "u32"),
    ("@location(3)", "world_pos", "vec2<f32>"),
    ("@location(4)", "mat_params", "vec4<f32>"),
];

/// One line per member.
pub open spec fn members_text(fields: Seq<Varying>) -> Seq<char>
    decreases fields.len(),
{
    if fields.len() == 0 {
        Seq::empty()
    } else {
        members_text(fields.drop_last()) + ("    "@ + fields.last().0@ + " "@ + fields.last().1@
            + ": "@ + fields.last().2@ + ",\n"@)
    }
}

/// Declaration of an interface struct.
pub open spec fn interface_text(name: Seq<char>, fields: Seq<Varying>) -> Seq<char> {
    "struct "@ + name + " {\n"@ + members_text(fields) + "}\n"@
}

/// Declaration of an interface struct.
pub fn interface_source(name: &str, fields: &[Varying]) -> (out: String)
    ensures
        out@ == interface_text(name@, fields@),
{
    let mut out: String = "struct ".to_owned();
    out.append(name);
    out.append(" {\n");
    let ghost before = out@;
    assert(fields@.subrange(0, 0) == Seq::<Varying>::empty());
    assert(before + Seq::<char>::empty() == before);
    for i in 0..fields.len()
        invariant
            out@ == before + members_text(fields@.subrange(0, i as int)),
    {
        proof {
            let next = fields@.subrange(0, i + 1);
            assert(next.drop_last() == fields@.subrange(0, i as int));
            assert(next.last() == fields@[i as int]);
        }
        out.append("    ");
        out.append(fields[i].0);
        out.append(" ");
        out.append(fields[i].1);
        out.append(": ");
        out.append(fields[i].2);
        out.append(",\n");
        assert(out@ == before + members_text(fields@.subrange(0, i + 1)));
    }
    assert(fields@.subrange(0, fields@.len() as int) == fields@);
    out.append("}\n");
    out
}

/// What the vertex stage hands over is what the fragment stage takes: behind the clip position
/// the varyings agree member by member.
pub proof fn gbuffer_varyings_agree(i: int)
    requires
        0 <= i < GBUFFER_FRAGMENT_INPUT@.len(),
    ensures
        GBUFFER_VERTEX_OUTPUT@.len() == GBUFFER_FRAGMENT_INPUT@.len() + 1,
        GBUFFER_VERTEX_OUTPUT@[i + 1] == GBUFFER_FRAGMENT_INPUT@[i],
{
    assert(i == 0 || i == 1 || i == 2 || i == 3 || i == 4);
}

/// The attribute of a location.
pub open spec fn location(i: int) -> Seq<char> {
    "@location("@ + text::decimal(i as nat) + ")"@
}

/// Mesh attributes and targets of the g-buffer are numbered in their order.
pub proof fn locations_count_up(i: int)
    ensures
        0 <= i < GBUFFER_VERTEX_INPUT@.len() ==> GBUFFER_VERTEX_INPUT@[i].0@ == location(i),
        0 <= i < GBUFFER_OUTPUT@.len() ==> GBUFFER_OUTPUT@[i].0@ == location(i),
        0 <= i < GBUFFER_FRAGMENT_INPUT@.len() - 1 ==> GBUFFER_FRAGMENT_INPUT@[i].0@ == location(i),
        GBUFFER_FRAGMENT_INPUT@.last().0@ == location(4) + " @interpolate(flat)"@,
{
    reveal_strlit("@location(");
    reveal_strlit(")");
    reveal_strlit("@location(0)");
    reveal_strlit("@location(1)");
    reveal_strlit("@location(2)");
    reveal_strlit("@location(3)");
    reveal_strlit("@location(4)");
    reveal_strlit(" @interpolate(flat)");
    reveal_strlit("@location(4) @interpolate(flat)");
    assert("@location(0)"@ =~= location(0));
    assert("@location(1)"@ =~= location(1));
    assert("@location(2)"@ =~= location(2));
    assert("@location(3)"@ =~= location(3));
    assert("@location(4)"@ =~= location(4));
    assert("@location(4) @interpolate(flat)"@ =~= location(4) + " @interpolate(flat)"@);
    assert(0 <= i < 5 ==> i == 0 || i == 1 || i == 2 || i == 3 || i == 4);
}

} // verus!
