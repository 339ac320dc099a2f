//! Laws of the generated sphere: its triangles tile the grid and close the surface.
use vstd::prelude::*;

use vstd::arithmetic::div_mod::lemma_fundamental_div_mod_converse;

use crate::mesh;

verus! {

/// Row of a vertex, counted from the north pole.
pub open spec fn row_of(sectors: nat, vertex: u32) -> int {
    vertex as int / (sectors as int + 1)
}

/// Column of a vertex. The last column stands on the first: it is the seam.
pub open spec fn column_of(sectors: nat, vertex: u32) -> int {
    vertex as int % (sectors as int + 1)
}

/// Where a vertex stands on the sphere: the vertices of the first and of the last row stand on the
/// poles, and the seam columns stand on each other.
pub open spec fn place(sectors: nat, stacks: nat, row: int, column: int) -> (int, int) {
    if row == 0 || row == stacks {
        (row, 0)
    } else if column == sectors {
        (row, 0)
    } else {
        (row, column)
    }
}

/// Where a numbered vertex stands on the sphere.
pub open spec fn place_of(sectors: nat, stacks: nat, vertex: u32) -> (int, int) {
    place(sectors, stacks, row_of(sectors, vertex), column_of(sectors, vertex))
}

/// Vertex `c` of triangle `k`, where corners are counted around.
pub open spec fn corner(indices: Seq<u32>, k: int, c: int) -> u32 {
    indices[3 * k + c % 3]
}

/// The directed edge of triangle `k` that leaves its corner `c`, between places on the sphere.
pub open spec fn side(sectors: nat, stacks: nat, indices: Seq<u32>, k: int, c: int) -> (
    (int, int),
    (int, int),
) {
    (
        place_of(sectors, stacks, corner(indices, k, c)),
        place_of(sectors, stacks, corner(indices, k, c + 1)),
    )
}

/// The other direction.
pub open spec fn turned(e: ((int, int), (int, int))) -> ((int, int), (int, int)) {
    (e.1, e.0)
}

/// Twice the area of a triangle of the grid, positive for the outward winding.
pub open spec fn doubled_area(sectors: nat, a: u32, b: u32, c: u32) -> int {
    (row_of(sectors, b) - row_of(sectors, a)) * (column_of(sectors, c) - column_of(sectors, a)) - (
    column_of(sectors, b) - column_of(sectors, a)) * (row_of(sectors, c) - row_of(sectors, a))
}

/// Triangles of rows above row `i`.
spec fn row_start(s: int, t: int, i: int) -> int {
    if i <= 0 {
        0
    } else if i >= t {
        2 * s * (t - 1)
    } else {
        s * (2 * i - 1)
    }
}

/// Triangles of one cell of row `i`.
spec fn per_cell(t: int, i: int) -> int {
    (if i == 0 {
        0int
    } else {
        1
    }) + (if i == t - 1 {
        0int
    } else {
        1
    })
}

/// Cell `(i, j)` has the lower or the upper triangle.
spec fn has_triangle(s: int, t: int, i: int, j: int, lower: bool) -> bool {
    0 <= i < t && 0 <= j < s && (lower ==> i < t - 1) && (!lower ==> 0 < i)
}

/// Number of a triangle.
spec fn number(s: int, t: int, i: int, j: int, lower: bool) -> int {
    row_start(s, t, i) + j * per_cell(t, i) + if lower && i > 0 {
        1int
    } else {
        0
    }
}

/// Row and column of a corner.
spec fn spot(i: int, j: int, lower: bool, c: int) -> (int, int) {
    if c == 1 {
        (i + 1, j)
    } else if c == 0 {
        if lower {
            (i, j + 1)
        } else {
            (i, j)
        }
    } else {
        if lower {
            (i + 1, j + 1)
        } else {
            (i, j + 1)
        }
    }
}

/// Number of the vertex at a row and a column.
spec fn vertex_at(s: int, spot: (int, int)) -> int {
    spot.0 * (s + 1) + spot.1
}

proof fn lemma_row_lens(s: nat, t: nat, i: int, n: nat)
    ensures
        mesh::row_cells(s, t, i, n).len() == n * (3 * per_cell(t as int, i)),
    decreases n,
{
    let per = 3 * per_cell(t as int, i);
    if n > 0 {
        lemma_row_lens(s, t, i, (n - 1) as nat);
        assert(n * per == (n - 1) * per + per) by (nonlinear_arith);
    } else {
        assert(0 * per == 0);
    }
}

proof fn lemma_row_starts(s: int, t: int, i: int)
    requires
        2 <= t,
        0 <= i < t,
    ensures
        row_start(s, t, i + 1) == row_start(s, t, i) + s * per_cell(t, i),
{
    if i == 0 {
        assert(s * (2 * 1 - 1) == s * 1);
    } else if i == t - 1 {
        assert(2 * s * (t - 1) == s * (2 * (t - 1) - 1) + s * 1) by (nonlinear_arith);
    } else {
        assert(s * (2 * (i + 1) - 1) == s * (2 * i - 1) + s * 2) by (nonlinear_arith);
    }
}

proof fn lemma_rows_lens(s: nat, t: nat, n: nat)
    requires
        2 <= t,
        n <= t,
    ensures
        mesh::grid_rows(s, t, n).len() == 3 * row_start(s as int, t as int, n as int),
    decreases n,
{
    if n > 0 {
        lemma_rows_lens(s, t, (n - 1) as nat);
        lemma_row_lens_full(s, t, n - 1);
        lemma_row_starts(s as int, t as int, n - 1);
    }
}

proof fn lemma_row_lens_full(s: nat, t: nat, i: int)
    ensures
        mesh::row_cells(s, t, i, s).len() == 3 * (s * per_cell(t as int, i)),
{
    lemma_row_lens(s, t, i, s);
    let p = per_cell(t as int, i);
    assert(s * (3 * p) == 3 * (s * p)) by (nonlinear_arith);
}

/// What row `i` adds stands behind the rows above it.
proof fn lemma_at_row(s: nat, t: nat, n: nat, i: int, q: int)
    requires
        2 <= t,
        0 <= i < n <= t,
        0 <= q < mesh::row_cells(s, t, i, s).len(),
    ensures
        3 * row_start(s as int, t as int, i) + q < mesh::grid_rows(s, t, n).len(),
        mesh::grid_rows(s, t, n)[3 * row_start(s as int, t as int, i) + q] == mesh::row_cells(
            s,
            t,
            i,
            s,
        )[q],
    decreases n,
{
    lemma_rows_lens(s, t, (n - 1) as nat);
    if i < n - 1 {
        lemma_at_row(s, t, (n - 1) as nat, i, q);
    }
}

/// What cell `j` adds stands behind the cells before it.
proof fn lemma_at_cell(s: nat, t: nat, i: int, n: nat, j: int, q: int)
    requires
        0 <= j < n,
        0 <= q < 3 * per_cell(t as int, i),
    ensures
        j * (3 * per_cell(t as int, i)) + q < mesh::row_cells(s, t, i, n).len(),
        mesh::row_cells(s, t, i, n)[j * (3 * per_cell(t as int, i)) + q] == mesh::cell(
            i * (s + 1),
            i * (s + 1) + s + 1,
            j,
            i == 0,
            i == t - 1,
        )[q],
    decreases n,
{
    lemma_row_lens(s, t, i, (n - 1) as nat);
    if j < n - 1 {
        lemma_at_cell(s, t, i, (n - 1) as nat, j, q);
    }
}

proof fn lemma_vertex(s: int, t: int, i: int, j: int, lower: bool, c: int)
    requires
        3 <= s,
        2 <= t,
        has_triangle(s, t, i, j, lower),
        0 <= c < 3,
    ensures
        0 <= vertex_at(s, spot(i, j, lower, c)) < (t + 1) * (s + 1),
        (i + 1) * (s + 1) == i * (s + 1) + s + 1,
{
    let at = spot(i, j, lower, c);
    assert((i + 1) * (s + 1) == i * (s + 1) + s + 1) by (nonlinear_arith);
    assert(0 <= at.0 * (s + 1) <= t * (s + 1)) by (nonlinear_arith)
        requires
            0 <= at.0 <= t,
            3 <= s,
    ;
    assert((t + 1) * (s + 1) == t * (s + 1) + s + 1) by (nonlinear_arith);
}

/// The triangles of a cell stand where they are counted.
proof fn lemma_triangle(s: nat, t: nat, i: int, j: int, lower: bool, c: int)
    requires
        3 <= s,
        2 <= t,
        mesh::grid_vertices(s, t) <= u32::MAX,
        has_triangle(s as int, t as int, i, j, lower),
        0 <= c < 3,
    ensures
        0 <= number(s as int, t as int, i, j, lower) < row_start(s as int, t as int, t as int),
        corner(mesh::grid_rows(s, t, t), number(s as int, t as int, i, j, lower), c) as int
            == vertex_at(s as int, spot(i, j, lower, c)),
{
    let p = per_cell(t as int, i);
    let step: int = if lower && i > 0 {
        1
    } else {
        0
    };
    let q = 3 * step + c;
    lemma_vertex(s as int, t as int, i, j, lower, c);
    lemma_at_cell(s, t, i, s, j, q);
    lemma_row_lens_full(s, t, i);
    lemma_at_row(s, t, t, i, j * (3 * p) + q);
    lemma_rows_lens(s, t, t);
    let k = number(s as int, t as int, i, j, lower);
    assert(3 * (j * p) == j * (3 * p)) by (nonlinear_arith);
    assert(3 * k + c == 3 * row_start(s as int, t as int, i) + (j * (3 * p) + q));
    assert(0 <= j * p) by (nonlinear_arith)
        requires
            0 <= j,
            0 <= p,
    ;
    if i > 0 {
        assert(0 <= s * (2 * i - 1)) by (nonlinear_arith)
            requires
                0 <= s,
                1 <= i,
        ;
    }
}

/// Every triangle is one of a cell.
proof fn lemma_cell_of(s: int, t: int, k: int, n: int) -> (at: (int, int, bool))
    requires
        3 <= s,
        2 <= t,
        0 <= n <= t,
        0 <= k < row_start(s, t, n),
    ensures
        has_triangle(s, t, at.0, at.1, at.2),
        number(s, t, at.0, at.1, at.2) == k,
    decreases n,
{
    let i = n - 1;
    lemma_row_starts(s, t, i);
    if k < row_start(s, t, i) {
        lemma_cell_of(s, t, k, i)
    } else {
        let m = k - row_start(s, t, i);
        let p = per_cell(t, i);
        if p == 1 {
            assert(s * p == s);
            assert(m * 1 == m);
            (i, m, i == 0)
        } else {
            assert(s * p == s * 2);
            let j = m / 2;
            assert(j * 2 + m % 2 == m);
            assert(j * p == j * 2);
            (i, j, m % 2 == 1)
        }
    }
}

proof fn lemma_place(s: nat, t: nat, i: int, j: int, lower: bool, c: int, vertex: u32)
    requires
        3 <= s,
        2 <= t,
        has_triangle(s as int, t as int, i, j, lower),
        0 <= c < 3,
        vertex as int == vertex_at(s as int, spot(i, j, lower, c)),
    ensures
        row_of(s, vertex) == spot(i, j, lower, c).0,
        column_of(s, vertex) == spot(i, j, lower, c).1,
{
    let at = spot(i, j, lower, c);
    let d = s + 1;
    assert(vertex as int == at.0 * d + at.1);
    assert(at.0 * d == d * at.0) by (nonlinear_arith);
    lemma_fundamental_div_mod_converse(vertex as int, d as int, at.0, at.1);
}

/// The directed edge of a cell's triangle that leaves its corner `c`.
spec fn cell_side(s: int, t: int, i: int, j: int, lower: bool, c: int) -> (
    (int, int),
    (int, int),
) {
    let from = spot(i, j, lower, c);
    let to = spot(i, j, lower, (c + 1) % 3);
    (place(s as nat, t as nat, from.0, from.1), place(s as nat, t as nat, to.0, to.1))
}

/// The corners of triangle `k`, and its edges on the sphere, are those of its cell.
proof fn lemma_sides(s: nat, t: nat, i: int, j: int, lower: bool)
    requires
        3 <= s,
        2 <= t,
        mesh::grid_vertices(s, t) <= u32::MAX,
        has_triangle(s as int, t as int, i, j, lower),
    ensures
        ({
            let all = mesh::grid_rows(s, t, t);
            let k = number(s as int, t as int, i, j, lower);
            &&& 0 <= k < row_start(s as int, t as int, t as int)
            &&& forall|c: int|
                0 <= c < 3 ==> row_of(s, #[trigger] corner(all, k, c)) == spot(i, j, lower, c).0
                    && column_of(s, corner(all, k, c)) == spot(i, j, lower, c).1 && corner(
                    all,
                    k,
                    c,
                ) as int == vertex_at(s as int, spot(i, j, lower, c))
            &&& forall|c: int|
                0 <= c < 3 ==> #[trigger] side(s, t, all, k, c) == cell_side(
                    s as int,
                    t as int,
                    i,
                    j,
                    lower,
                    c,
                )
        }),
{
    let all = mesh::grid_rows(s, t, t);
    let k = number(s as int, t as int, i, j, lower);
    assert forall|c: int| 0 <= c < 3 implies row_of(s, #[trigger] corner(all, k, c)) == spot(
        i,
        j,
        lower,
        c,
    ).0 && column_of(s, corner(all, k, c)) == spot(i, j, lower, c).1 && corner(all, k, c) as int
        == vertex_at(s as int, spot(i, j, lower, c)) by {
        lemma_triangle(s, t, i, j, lower, c);
        lemma_place(s, t, i, j, lower, c, corner(all, k, c));
    }
    lemma_triangle(s, t, i, j, lower, 0);
    assert forall|c: int| 0 <= c < 3 implies #[trigger] side(s, t, all, k, c) == cell_side(
        s as int,
        t as int,
        i,
        j,
        lower,
        c,
    ) by {
        assert(corner(all, k, c + 1) == corner(all, k, (c + 1) % 3));
        assert(row_of(s, corner(all, k, c)) == spot(i, j, lower, c).0);
        assert(row_of(s, corner(all, k, (c + 1) % 3)) == spot(i, j, lower, (c + 1) % 3).0);
    }
}

/// No two triangles have a directed edge in common.
proof fn lemma_sides_differ(
    s: int,
    t: int,
    i: int,
    j: int,
    lower: bool,
    c: int,
    i2: int,
    j2: int,
    lower2: bool,
    c2: int,
)
    requires
        3 <= s,
        2 <= t,
        has_triangle(s, t, i, j, lower),
        has_triangle(s, t, i2, j2, lower2),
        0 <= c < 3,
        0 <= c2 < 3,
        cell_side(s, t, i, j, lower, c) == cell_side(s, t, i2, j2, lower2, c2),
    ensures
        i == i2,
        j == j2,
        lower == lower2,
        c == c2,
{
    assert(c == 0 || c == 1 || c == 2);
    assert(c2 == 0 || c2 == 1 || c2 == 2);
}

/// The edge of the neighbour that runs the other way.
spec fn neighbour(s: int, t: int, i: int, j: int, lower: bool, c: int) -> (int, int, bool, int) {
    let left = if j == 0 {
        s - 1
    } else {
        j - 1
    };
    let right = if j == s - 1 {
        0
    } else {
        j + 1
    };
    if !lower {
        if c == 0 {
            if i == t - 1 {
                (i, left, false, 1)
            } else {
                (i, left, true, 2)
            }
        } else if c == 1 {
            if i == t - 1 {
                (i, right, false, 0)
            } else {
                (i, j, true, 0)
            }
        } else {
            (i - 1, j, true, 1)
        }
    } else {
        if c == 0 {
            if i == 0 {
                (i, left, true, 2)
            } else {
                (i, j, false, 1)
            }
        } else if c == 1 {
            (i + 1, j, false, 2)
        } else {
            if i == 0 {
                (i, right, true, 0)
            } else {
                (i, right, false, 0)
            }
        }
    }
}

proof fn lemma_neighbour(s: int, t: int, i: int, j: int, lower: bool, c: int)
    requires
        3 <= s,
        2 <= t,
        has_triangle(s, t, i, j, lower),
        0 <= c < 3,
    ensures
        ({
            let n = neighbour(s, t, i, j, lower, c);
            &&& has_triangle(s, t, n.0, n.1, n.2)
            &&& 0 <= n.3 < 3
            &&& cell_side(s, t, n.0, n.1, n.2, n.3) == turned(cell_side(s, t, i, j, lower, c))
        }),
{
    assert(c == 0 || c == 1 || c == 2);
}

/// Number of triangles of a sphere.
pub open spec fn triangle_count(sectors: u32, stacks: u32) -> int {
    mesh::sphere_triangles(sectors, stacks).len() as int / 3
}

proof fn lemma_count(sectors: u32, stacks: u32)
    ensures
        triangle_count(sectors, stacks) == row_start(
            mesh::sector_count(sectors) as int,
            mesh::stack_count(stacks) as int,
            mesh::stack_count(stacks) as int,
        ),
        mesh::sphere_triangles(sectors, stacks).len() == 3 * triangle_count(sectors, stacks),
        3 <= mesh::sector_count(sectors),
        2 <= mesh::stack_count(stacks),
{
    lemma_rows_lens(
        mesh::sector_count(sectors) as nat,
        mesh::stack_count(stacks) as nat,
        mesh::stack_count(stacks) as nat,
    );
}

/// The surface is closed and consistently wound: with the seam columns on each other and the first
/// and last rows on the poles, no edge is a point, and every directed edge is that of one triangle
/// alone and is met by exactly one that runs the other way.
pub proof fn the_sphere_is_a_closed_surface(
    sectors: u32,
    stacks: u32,
    k: int,
    c: int,
    k2: int,
    c2: int,
)
    requires
        mesh::grid_vertices(
            mesh::sector_count(sectors) as nat,
            mesh::stack_count(stacks) as nat,
        ) <= u32::MAX,
        0 <= k < triangle_count(sectors, stacks),
        0 <= k2 < triangle_count(sectors, stacks),
        0 <= c < 3,
        0 <= c2 < 3,
    ensures
        mesh::sphere_triangles(sectors, stacks).len() == 3 * triangle_count(sectors, stacks),
        ({
            let s = mesh::sector_count(sectors) as nat;
            let t = mesh::stack_count(stacks) as nat;
            let all = mesh::sphere_triangles(sectors, stacks);
            &&& side(s, t, all, k, c).0 != side(s, t, all, k, c).1
            &&& side(s, t, all, k, c) == side(s, t, all, k2, c2) ==> k == k2 && c == c2
            &&& exists|k3: int, c3: int|
                0 <= k3 < triangle_count(sectors, stacks) && 0 <= c3 < 3 && #[trigger] side(
                    s,
                    t,
                    all,
                    k3,
                    c3,
                ) == turned(side(s, t, all, k, c))
        }),
{
    let s = mesh::sector_count(sectors) as nat;
    let t = mesh::stack_count(stacks) as nat;
    let all = mesh::sphere_triangles(sectors, stacks);
    lemma_count(sectors, stacks);
    let (i, j, lower) = lemma_cell_of(s as int, t as int, k, t as int);
    let (i2, j2, lower2) = lemma_cell_of(s as int, t as int, k2, t as int);
    lemma_sides(s, t, i, j, lower);
    lemma_sides(s, t, i2, j2, lower2);
    assert(side(s, t, all, k, c) == cell_side(s as int, t as int, i, j, lower, c));
    assert(side(s, t, all, k2, c2) == cell_side(s as int, t as int, i2, j2, lower2, c2));
    if side(s, t, all, k, c) == side(s, t, all, k2, c2) {
        lemma_sides_differ(s as int, t as int, i, j, lower, c, i2, j2, lower2, c2);
    }
    assert(c == 0 || c == 1 || c == 2);
    let n = neighbour(s as int, t as int, i, j, lower, c);
    lemma_neighbour(s as int, t as int, i, j, lower, c);
    lemma_sides(s, t, n.0, n.1, n.2);
    let k3 = number(s as int, t as int, n.0, n.1, n.2);
    assert(side(s, t, all, k3, n.3) == turned(side(s, t, all, k, c)));
}

/// Every triangle is half a cell of the grid, wound outward: its corners are vertices of the grid
/// that lie in one cell, and it has half a cell's area.
pub proof fn every_triangle_is_half_a_cell(sectors: u32, stacks: u32, k: int)
    requires
        mesh::grid_vertices(
            mesh::sector_count(sectors) as nat,
            mesh::stack_count(stacks) as nat,
        ) <= u32::MAX,
        0 <= k < triangle_count(sectors, stacks),
    ensures
        ({
            let s = mesh::sector_count(sectors) as nat;
            let t = mesh::stack_count(stacks) as nat;
            let all = mesh::sphere_triangles(sectors, stacks);
            &&& doubled_area(s, corner(all, k, 0), corner(all, k, 1), corner(all, k, 2)) == 1
            &&& exists|i: int, j: int|
                0 <= i < t && 0 <= j < s && #[trigger] lies_in(s, all, k, i, j)
        }),
{
    let s = mesh::sector_count(sectors) as nat;
    let t = mesh::stack_count(stacks) as nat;
    let all = mesh::sphere_triangles(sectors, stacks);
    lemma_count(sectors, stacks);
    let (i, j, lower) = lemma_cell_of(s as int, t as int, k, t as int);
    lemma_sides(s, t, i, j, lower);
    assert(row_of(s, corner(all, k, 0)) == spot(i, j, lower, 0).0);
    assert(row_of(s, corner(all, k, 1)) == spot(i, j, lower, 1).0);
    assert(row_of(s, corner(all, k, 2)) == spot(i, j, lower, 2).0);
    assert(lies_in(s, all, k, i, j));
    let down1 = row_of(s, corner(all, k, 1)) - row_of(s, corner(all, k, 0));
    let down2 = row_of(s, corner(all, k, 2)) - row_of(s, corner(all, k, 0));
    let right1 = column_of(s, corner(all, k, 1)) - column_of(s, corner(all, k, 0));
    let right2 = column_of(s, corner(all, k, 2)) - column_of(s, corner(all, k, 0));
    assert(down1 * right2 - right1 * down2 == 1) by (nonlinear_arith)
        requires
            down1 == 1,
            (right2 == 0 && right1 == -1 && down2 == 1) || (right2 == 1 && right1 == 0),
    ;
}

/// The corners of triangle `k` are corners of the cell `(i, j)`.
pub open spec fn lies_in(sectors: nat, indices: Seq<u32>, k: int, i: int, j: int) -> bool {
    forall|c: int|
        0 <= c < 3 ==> i <= row_of(sectors, #[trigger] corner(indices, k, c)) <= i + 1 && j
            <= column_of(sectors, corner(indices, k, c)) <= j + 1
}

/// Triangle `k` has the directed edge between two vertices.
pub open spec fn runs(indices: Seq<u32>, k: int, c: int, from: int, to: int) -> bool {
    &&& 0 <= 3 * k + 2 < indices.len()
    &&& 0 <= k
    &&& 0 <= c < 3
    &&& corner(indices, k, c) as int == from
    &&& corner(indices, k, c + 1) as int == to
}

/// Every cell is split along the same diagonal, from its right upper to its left lower corner.
/// Cells between the poles have a triangle on either side of it; cells at the north pole only the
/// lower one, cells at the south pole only the upper one.
pub proof fn cells_are_split_along_their_diagonal(sectors: u32, stacks: u32, i: int, j: int)
    requires
        mesh::grid_vertices(
            mesh::sector_count(sectors) as nat,
            mesh::stack_count(stacks) as nat,
        ) <= u32::MAX,
        0 <= i < mesh::stack_count(stacks),
        0 <= j < mesh::sector_count(sectors),
    ensures
        ({
            let width = mesh::sector_count(sectors) + 1;
            let upper_right = i * width + j + 1;
            let lower_left = (i + 1) * width + j;
            let all = mesh::sphere_triangles(sectors, stacks);
            &&& i < mesh::stack_count(stacks) - 1 ==> exists|k: int, c: int| #[trigger]
                runs(all, k, c, upper_right, lower_left)
            &&& i > 0 ==> exists|k: int, c: int| #[trigger]
                runs(all, k, c, lower_left, upper_right)
        }),
{
    let s = mesh::sector_count(sectors) as nat;
    let t = mesh::stack_count(stacks) as nat;
    let all = mesh::sphere_triangles(sectors, stacks);
    lemma_count(sectors, stacks);
    let upper_right = i * (s + 1) + j + 1;
    let lower_left = (i + 1) * (s + 1) + j;
    if i < t - 1 {
        lemma_sides(s, t, i, j, true);
        let k = number(s as int, t as int, i, j, true);
        assert(corner(all, k, 0) as int == upper_right);
        assert(corner(all, k, 1) as int == lower_left);
        assert(runs(all, k, 0, upper_right, lower_left));
    }
    if i > 0 {
        lemma_sides(s, t, i, j, false);
        let k = number(s as int, t as int, i, j, false);
        assert(corner(all, k, 1) as int == lower_left);
        assert(corner(all, k, 2) as int == upper_right);
        assert(runs(all, k, 1, lower_left, upper_right));
    }
}

/// Degenerate requests are raised to a solid; others are kept.
pub proof fn only_degenerate_counts_are_raised(sectors: u32, stacks: u32)
    ensures
        mesh::sector_count(sectors) >= 3,
        mesh::sector_count(sectors) >= sectors,
        mesh::sector_count(sectors) == sectors || mesh::sector_count(sectors) == 3,
        mesh::stack_count(stacks) >= 2,
        mesh::stack_count(stacks) >= stacks,
        mesh::stack_count(stacks) == stacks || mesh::stack_count(stacks) == 2,
{
}

} // verus!
