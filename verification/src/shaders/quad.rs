//! Constants of the full-screen quads.
use vstd::prelude::*;
#[allow(unused_imports)]
use vstd::string::*;

use crate::text;

verus! {

/// Corners of the full-screen quad in triangle strip order, in clip space.
pub const STANDARD_QUAD: [[i32; 4]; 4] = [[-1, -1, 0, 1], [1, -1, 0, 1], [-1, 1, 0, 1], [1, 1, 0, 1]];

/// Texture coordinates of the corners of [`STANDARD_QUAD`].
pub const STANDARD_UVS: [[i32; 2]; 4] = [[0, 1], [1, 1], [0, 0], [1, 0]];

/// Corners of the quad that mixes in the user interface. Its winding is the other one.
pub const COMPOSITE_QUAD: [[i32; 4]; 4] = [[-1, -1, 0, 1], [-1, 1, 0, 1], [1, -1, 0, 1], [1, 1, 0, 1]];

/// Texture coordinates of the corners of [`COMPOSITE_QUAD`].
pub const COMPOSITE_UVS: [[i32; 2]; 4] = [[0, 1], [0, 0], [1, 1], [1, 0]];

/// A whole number as a floating-point literal.
pub open spec fn whole_lit_text(v: int) -> Seq<char> {
    if v < 0 {
        "-"@ + text::decimal((-v) as nat) + ".0"@
    } else {
        text::decimal(v as nat) + ".0"@
    }
}

/// Whole numbers as floating-point literals, separated by commas.
pub open spec fn row_text(row: Seq<i32>) -> Seq<char>
    decreases row.len(),
{
    if row.len() == 0 {
        Seq::empty()
    } else if row.len() == 1 {
        whole_lit_text(row[0] as int)
    } else {
        row_text(row.drop_last()) + ", "@ + whole_lit_text(row.last() as int)
    }
}

/// One constructor call per row, each on a line of its own.
pub open spec fn rows_text<const N: usize>(ty: Seq<char>, rows: Seq<[i32; N]>) -> Seq<char>
    decreases rows.len(),
{
    if rows.len() == 0 {
        Seq::empty()
    } else {
        rows_text(ty, rows.drop_last()) + ("    "@ + ty + "("@ + row_text(rows.last()@) + "),\n"@)
    }
}

/// A constant array of vectors.
pub open spec fn const_array_text<const N: usize>(
    name: Seq<char>,
    ty: Seq<char>,
    rows: Seq<[i32; N]>,
) -> Seq<char> {
    let array_ty = "array<"@ + ty + ", "@ + text::decimal(rows.len()) + ">"@;
    "const "@ + name + ": "@ + array_ty + " = "@ + array_ty + "(\n"@ + rows_text(ty, rows)
        + ");\n"@
}

/// Appends a whole number as a floating-point literal.
fn push_whole_lit(out: &mut String, v: i32)
    ensures
        final(out)@ == old(out)@ + whole_lit_text(v as int),
{
    let ghost before = out@;
    if v < 0 {
        out.append("-");
        let magnitude: i64 = -(v as i64);
        text::push_decimal(out, magnitude as u64);
    } else {
        text::push_decimal(out, v as u64);
    }
    out.append(".0");
    assert(out@ == before + whole_lit_text(v as int));
}

/// Appends a row of literals.
fn push_row<const N: usize>(out: &mut String, row: &[i32; N])
    ensures
        final(out)@ == old(out)@ + row_text(row@),
{
    let ghost before = out@;
    assert(row@.subrange(0, 0) == Seq::<i32>::empty());
    assert(before + Seq::<char>::empty() == before);
    for i in 0..N
        invariant
            row@.len() == N,
            out@ == before + row_text(row@.subrange(0, i as int)),
    {
        proof {
            let next = row@.subrange(0, i + 1);
            assert(next.drop_last() == row@.subrange(0, i as int));
            assert(next.last() == row@[i as int]);
        }
        if i > 0 {
            out.append(", ");
        }
        push_whole_lit(out, row[i]);
        proof {
            let next = row@.subrange(0, i + 1);
            if i == 0 {
                assert(next[0] == row@[0]);
            }
            assert(out@ == before + row_text(next));
        }
    }
    assert(row@.subrange(0, N as int) == row@);
}

/// A constant array of vectors of the type `ty`.
pub fn const_array<const N: usize>(name: &str, ty: &str, rows: &[[i32; N]]) -> (out: String)
    ensures
        out@ == const_array_text(name@, ty@, rows@),
{
    let mut array_ty: String = "array<".to_owned();
    array_ty.append(ty);
    array_ty.append(", ");
    text::push_decimal(&mut array_ty, rows.len() as u64);
    array_ty.append(">");
    let mut out: String = "const ".to_owned();
    out.append(name);
    out.append(": ");
    out.append(array_ty.as_str());
    out.append(" = ");
    out.append(array_ty.as_str());
    out.append("(\n");
    let ghost before = out@;
    assert(rows@.subrange(0, 0) == Seq::<[i32; N]>::empty());
    assert(before + Seq::<char>::empty() == before);
    for i in 0..rows.len()
        invariant
            out@ == before + rows_text(ty@, rows@.subrange(0, i as int)),
    {
        proof {
            let next = rows@.subrange(0, i + 1);
            assert(next.drop_last() == rows@.subrange(0, i as int));
            assert(next.last() == rows@[i as int]);
        }
        out.append("    ");
        out.append(ty);
        out.append("(");
        push_row(&mut out, &rows[i]);
        out.append("),\n");
        assert(out@ == before + rows_text(ty@, rows@.subrange(0, i + 1)));
    }
    assert(rows@.subrange(0, rows@.len() as int) == rows@);
    out.append(");\n");
    out
}

/// The constants of a quad: its corners and their texture coordinates.
pub open spec fn const_block_text(
    quad_name: Seq<char>,
    uvs_name: Seq<char>,
    quad: Seq<[i32; 4]>,
    uvs: Seq<[i32; 2]>,
) -> Seq<char> {
    const_array_text(quad_name, "vec4<f32>"@, quad) + "\n"@ + const_array_text(
        uvs_name,
        "vec2<f32>"@,
        uvs,
    )
}

/// The constants of a quad: its corners and their texture coordinates.
pub fn const_block(quad_name: &str, uvs_name: &str, quad: &[[i32; 4]], uvs: &[[i32; 2]]) -> (out:
    String)
    ensures
        out@ == const_block_text(quad_name@, uvs_name@, quad@, uvs@),
{
    let mut out: String = const_array(quad_name, "vec4<f32>", quad);
    out.append("\n");
    out.append(const_array(uvs_name, "vec2<f32>", uvs).as_str());
    out
}

/// The corner of a quad and its texture coordinates name one point of the screen: coordinates run from
/// zero to one, to the right and downwards, where clip space runs from minus one to one, to the
/// right and upwards.
pub open spec fn same_point(corner: [i32; 4], uv: [i32; 2]) -> bool {
    &&& corner@[0] == 2 * uv@[0] - 1
    &&& corner@[1] == 1 - 2 * uv@[1]
    &&& corner@[2] == 0
    &&& corner@[3] == 1
}

/// Twice the signed area of the triangle of three corners.
pub open spec fn turn(a: [i32; 4], b: [i32; 4], c: [i32; 4]) -> int {
    (b@[0] - a@[0]) * (c@[1] - a@[1]) - (c@[0] - a@[0]) * (b@[1] - a@[1])
}

/// Both quads cover the whole screen with two triangles and map every corner to its own texture
/// coordinates; their windings differ.
pub proof fn quads_cover_the_screen(k: int)
    requires
        0 <= k < 4,
    ensures
        same_point(STANDARD_QUAD@[k], STANDARD_UVS@[k]),
        same_point(COMPOSITE_QUAD@[k], COMPOSITE_UVS@[k]),
        STANDARD_QUAD@[k]@[0] == 1 || STANDARD_QUAD@[k]@[0] == -1,
        STANDARD_QUAD@[k]@[1] == 1 || STANDARD_QUAD@[k]@[1] == -1,
        turn(STANDARD_QUAD@[0], STANDARD_QUAD@[1], STANDARD_QUAD@[2]) == 4,
        turn(STANDARD_QUAD@[2], STANDARD_QUAD@[1], STANDARD_QUAD@[3]) == 4,
        turn(COMPOSITE_QUAD@[0], COMPOSITE_QUAD@[1], COMPOSITE_QUAD@[2]) == -4,
        turn(COMPOSITE_QUAD@[2], COMPOSITE_QUAD@[1], COMPOSITE_QUAD@[3]) == -4,
{
    assert(k == 0 || k == 1 || k == 2 || k == 3);
}

} // verus!
