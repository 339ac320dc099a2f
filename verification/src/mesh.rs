//! Triangulation of generated meshes and the vertex layout.
use vstd::prelude::*;

use crate::shaders::interface;

verus! {

/// Sectors of a generated sphere: at least three.
pub open spec fn sector_count(sectors: u32) -> u32 {
    if sectors < 3 {
        3
    } else {
        sectors
    }
}

/// Stacks of a generated sphere: at least two.
pub open spec fn stack_count(stacks: u32) -> u32 {
    if stacks < 2 {
        2
    } else {
        stacks
    }
}

/// Vertices of a sphere grid: one more than its stacks times one more than its sectors.
pub open spec fn grid_vertices(sectors: nat, stacks: nat) -> nat {
    (stacks + 1) * (sectors + 1)
}

/// Triangles of one cell of the grid between the rows that start at `k1` and `k2`. Cells at the
/// north pole have only their lower triangle, cells at the south pole only their upper one.
pub open spec fn cell(k1: int, k2: int, j: int, north: bool, south: bool) -> Seq<u32> {
    let upper = if north {
        Seq::empty()
    } else {
        seq![(k1 + j) as u32, (k2 + j) as u32, (k1 + j + 1) as u32]
    };
    let lower = if south {
        Seq::empty()
    } else {
        seq![(k1 + j + 1) as u32, (k2 + j) as u32, (k2 + j + 1) as u32]
    };
    upper + lower
}

/// Triangles of the first `n` cells of row `i`.
pub open spec fn row_cells(sectors: nat, stacks: nat, i: int, n: nat) -> Seq<u32>
    decreases n,
{
    if n == 0 {
        Seq::empty()
    } else {
        let k1 = i * (sectors + 1);
        row_cells(sectors, stacks, i, (n - 1) as nat) + cell(
            k1,
            k1 + sectors + 1,
            n - 1,
            i == 0,
            i == stacks - 1,
        )
    }
}

/// Triangles of the first `n` rows.
pub open spec fn grid_rows(sectors: nat, stacks: nat, n: nat) -> Seq<u32>
    decreases n,
{
    if n == 0 {
        Seq::empty()
    } else {
        grid_rows(sectors, stacks, (n - 1) as nat) + row_cells(sectors, stacks, n - 1, sectors)
    }
}

/// Triangles of a sphere.
pub open spec fn sphere_triangles(sectors: u32, stacks: u32) -> Seq<u32> {
    let s = sector_count(sectors) as nat;
    let t = stack_count(stacks) as nat;
    grid_rows(s, t, t)
}

proof fn lemma_row_start(sectors: int, stacks: int, i: int)
    requires
        0 <= i < stacks,
        0 <= sectors,
    ensures
        0 <= i * (sectors + 1),
        i * (sectors + 1) + 2 * (sectors + 1) <= (stacks + 1) * (sectors + 1),
{
    assert((i + 2) * (sectors + 1) <= (stacks + 1) * (sectors + 1)) by (nonlinear_arith)
        requires
            i + 2 <= stacks + 1,
            0 <= sectors,
    ;
    assert((i + 2) * (sectors + 1) == i * (sectors + 1) + 2 * (sectors + 1)) by (nonlinear_arith);
    assert(0 <= i * (sectors + 1)) by (nonlinear_arith)
        requires
            0 <= i,
            0 <= sectors,
    ;
}

/// Sectors and stacks of a generated sphere: degenerate requests are raised to three sectors and
/// two stacks.
pub fn sphere_counts(sectors: u32, stacks: u32) -> (counts: (u32, u32))
    ensures
        counts == (sector_count(sectors), stack_count(stacks)),
{
    let s: u32 = if sectors < 3 {
        3
    } else {
        sectors
    };
    let t: u32 = if stacks < 2 {
        2
    } else {
        stacks
    };
    (s, t)
}

/// Triangle indices of a sphere, over vertices that are numbered row by row from the north pole.
pub fn sphere_indices(sectors: u32, stacks: u32) -> (indices: Vec<u32>)
    requires
        grid_vertices(sector_count(sectors) as nat, stack_count(stacks) as nat) <= u32::MAX,
    ensures
        indices@ == sphere_triangles(sectors, stacks),
{
    let (s, t) = sphere_counts(sectors, stacks);
    let mut indices: Vec<u32> = Vec::new();
    let mut i: u32 = 0;
    while i < t
        invariant
            i <= t,
            t >= 2,
            grid_vertices(s as nat, t as nat) <= u32::MAX,
            indices@ == grid_rows(s as nat, t as nat, i as nat),
        decreases t - i,
    {
        proof {
            lemma_row_start(s as int, t as int, i as int);
        }
        let k1: u32 = i * (s + 1);
        let k2: u32 = k1 + s + 1;
        let ghost before = indices@;
        let mut j: u32 = 0;
        assert(before + Seq::<u32>::empty() == before);
        while j < s
            invariant
                j <= s,
                i < t,
                t >= 2,
                k1 == i * (s + 1),
                k2 == k1 + s + 1,
                k1 + 2 * (s + 1) <= u32::MAX,
                indices@ == before + row_cells(s as nat, t as nat, i as int, j as nat),
            decreases s - j,
        {
            let ghost row = indices@;
            if i != 0 {
                indices.push(k1 + j);
                indices.push(k2 + j);
                indices.push(k1 + j + 1);
            }
            if i != t - 1 {
                indices.push(k1 + j + 1);
                indices.push(k2 + j);
                indices.push(k2 + j + 1);
            }
            proof {
                let added = cell(k1 as int, k2 as int, j as int, i == 0, i == t - 1);
                assert(indices@ =~= row + added);
                assert(indices@ =~= before + row_cells(s as nat, t as nat, i as int, (j + 1) as nat));
            }
            j = j + 1;
        }
        i = i + 1;
    }
    indices
}

proof fn lemma_row_len(sectors: nat, stacks: nat, i: int, n: nat)
    ensures
        row_cells(sectors, stacks, i, n).len() == n * (if i == 0 {
            0int
        } else {
            3
        } + if i == stacks - 1 {
            0int
        } else {
            3
        }),
    decreases n,
{
    if n > 0 {
        lemma_row_len(sectors, stacks, i, (n - 1) as nat);
        let per: int = if i == 0 {
            0int
        } else {
            3
        } + if i == stacks - 1 {
            0int
        } else {
            3
        };
        assert(n * per == (n - 1) * per + per) by (nonlinear_arith);
    } else {
        assert(0 * (if i == 0 {
            0int
        } else {
            3
        } + if i == stacks - 1 {
            0int
        } else {
            3
        }) == 0);
    }
}

proof fn lemma_rows_len(sectors: nat, stacks: nat, n: nat)
    requires
        2 <= stacks,
        n <= stacks,
    ensures
        grid_rows(sectors, stacks, n).len() == if n == 0 {
            0int
        } else if n == stacks {
            6 * sectors * (stacks - 1)
        } else {
            sectors * (6 * n - 3)
        },
    decreases n,
{
    if n > 0 {
        lemma_rows_len(sectors, stacks, (n - 1) as nat);
        lemma_row_len(sectors, stacks, n - 1, sectors);
        let s = sectors as int;
        if n == 1 {
            assert(s * (6 * 1 - 3) == s * 3);
        } else if n == stacks {
            assert(s * (6 * (n - 1) - 3) + s * 3 == 6 * s * (n - 1)) by (nonlinear_arith);
        } else {
            assert(s * (6 * (n - 1) - 3) + s * 6 == s * (6 * n - 3)) by (nonlinear_arith);
        }
    }
}

proof fn lemma_row_bound(sectors: nat, stacks: nat, i: int, n: nat, k: int)
    requires
        0 <= i < stacks,
        n <= sectors,
        grid_vertices(sectors, stacks) <= u32::MAX,
        0 <= k < row_cells(sectors, stacks, i, n).len(),
    ensures
        row_cells(sectors, stacks, i, n)[k] < grid_vertices(sectors, stacks),
    decreases n,
{
    lemma_row_start(sectors as int, stacks as int, i);
    if n > 0 {
        let head = row_cells(sectors, stacks, i, (n - 1) as nat);
        if k < head.len() {
            lemma_row_bound(sectors, stacks, i, (n - 1) as nat, k);
        }
    }
}

proof fn lemma_rows_bound(sectors: nat, stacks: nat, n: nat, k: int)
    requires
        n <= stacks,
        grid_vertices(sectors, stacks) <= u32::MAX,
        0 <= k < grid_rows(sectors, stacks, n).len(),
    ensures
        grid_rows(sectors, stacks, n)[k] < grid_vertices(sectors, stacks),
    decreases n,
{
    if n > 0 {
        let head = grid_rows(sectors, stacks, (n - 1) as nat);
        if k < head.len() {
            lemma_rows_bound(sectors, stacks, (n - 1) as nat, k);
        } else {
            lemma_row_bound(sectors, stacks, n - 1, sectors, k - head.len());
        }
    }
}

/// A sphere has two triangles per cell, but one at the poles, and every index names a vertex.
pub proof fn sphere_triangles_are_closed(sectors: u32, stacks: u32, k: int)
    requires
        grid_vertices(sector_count(sectors) as nat, stack_count(stacks) as nat) <= u32::MAX,
        0 <= k < sphere_triangles(sectors, stacks).len(),
    ensures
        sphere_triangles(sectors, stacks).len() == 6 * sector_count(sectors) * (stack_count(stacks)
            - 1),
        sphere_triangles(sectors, stacks)[k] < grid_vertices(
            sector_count(sectors) as nat,
            stack_count(stacks) as nat,
        ),
{
    let s = sector_count(sectors) as nat;
    let t = stack_count(stacks) as nat;
    lemma_rows_len(s, t, t);
    lemma_rows_bound(s, t, t, k);
}

/// Format of a vertex attribute.
#[derive(Clone, Copy, Debug, PartialEq, Eq, Structural)]
pub enum VertexFormat {
    /// Two single-precision numbers.
    Float32x2,
    /// Three single-precision numbers.
    Float32x3,
}

/// A vertex attribute: offset in the vertex, shader location and format.
pub type VertexAttribute = (u64, u32, VertexFormat);

/// Attributes of a vertex: position, normal, texture coordinates and tangent.
pub const VERTEX_ATTRIBUTES: [VertexAttribute; 4] = [
    (0, 0, VertexFormat::Float32x3),
    (12, 1, VertexFormat::Float32x3),
    (24, 2, VertexFormat::Float32x2),
    (32, 3, VertexFormat::Float32x3),
];

/// Bytes of a vertex.
pub const VERTEX_STRIDE: u64 = 44;

impl VertexFormat {
    /// Bytes of the attribute.
    pub open spec fn bytes(self) -> nat {
        match self {
            VertexFormat::Float32x2 => 8,
            VertexFormat::Float32x3 => 12,
        }
    }

    /// The shader type that the attribute feeds.
    pub open spec fn type_text(self) -> Seq<char> {
        match self {
            VertexFormat::Float32x2 => "vec2<f32>"@,
            VertexFormat::Float32x3 => "vec3<f32>"@,
        }
    }
}

/// Attributes follow one another without gaps, in the order of their locations, and feed inputs
/// of the shader of the same type.
pub proof fn vertex_attributes_feed_the_shader(i: int)
    requires
        0 <= i < VERTEX_ATTRIBUTES@.len(),
    ensures
        VERTEX_ATTRIBUTES@[i].1 == i,
        VERTEX_ATTRIBUTES@[i].0 + VERTEX_ATTRIBUTES@[i].2.bytes() == if i + 1
            < VERTEX_ATTRIBUTES@.len() {
            VERTEX_ATTRIBUTES@[i + 1].0
        } else {
            VERTEX_STRIDE
        },
        VERTEX_ATTRIBUTES@.len() == interface::GBUFFER_VERTEX_INPUT@.len(),
        interface::GBUFFER_VERTEX_INPUT@[i].2@ == VERTEX_ATTRIBUTES@[i].2.type_text(),
{
    assert(i == 0 || i == 1 || i == 2 || i == 3);
}

} // verus!
