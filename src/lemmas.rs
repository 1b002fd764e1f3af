use vstd::prelude::*;

use crate::marching_squares::{
    cell_collision_vertices, cell_points, cell_vertices, collision_cell, collision_vertices,
    abs_diff, proportion, snapped_corners, corner_density, corner_dx, corner_dy, lemma_ruleset_selection, local_position, mask_of,
    mesh_vertices, row_collision_vertices, row_len, row_vertices, rows_collision_vertices,
    rows_len, rows_vertices, ruleset_of, vertex_of,
};
use crate::tables::lemma_table_shape;
use crate::tiles::Tiles;

verus! {

/// Triangle `i` of a vertex list: its vertices 3i, 3i + 1 and 3i + 2.
pub open spec fn triangle(s: Seq<(int, int, int)>, i: int) -> Seq<(int, int, int)> {
    s.subrange(3 * i, 3 * i + 3)
}

/// `m` maps triangle `i` of `sub` to an equal triangle `m[i]` of `full`,
/// keeping their order.
pub open spec fn embeds(sub: Seq<(int, int, int)>, full: Seq<(int, int, int)>, m: Seq<int>) -> bool {
    &&& sub.len() == 3 * m.len()
    &&& full.len() % 3 == 0
    &&& forall|i: int|
        0 <= i < m.len() ==> 0 <= #[trigger] m[i] && 3 * m[i] + 3 <= full.len() && triangle(sub, i)
            == triangle(full, m[i])
    &&& forall|i: int, j: int| 0 <= i < j < m.len() ==> m[i] < m[j]
}

proof fn lemma_embeds_concat(
    s1: Seq<(int, int, int)>,
    f1: Seq<(int, int, int)>,
    m1: Seq<int>,
    s2: Seq<(int, int, int)>,
    f2: Seq<(int, int, int)>,
    m2: Seq<int>,
) -> (m: Seq<int>)
    requires
        embeds(s1, f1, m1),
        embeds(s2, f2, m2),
    ensures
        embeds(s1 + s2, f1 + f2, m),
{
    let off = f1.len() / 3;
    let shifted = m2.map_values(|k: int| k + off);
    let m = m1 + shifted;
    let s = s1 + s2;
    let f = f1 + f2;
    assert forall|i: int| 0 <= i < m.len() implies 0 <= #[trigger] m[i] && 3 * m[i] + 3 <= f.len()
        && triangle(s, i) == triangle(f, m[i]) by {
        if i < m1.len() {
            assert(m[i] == m1[i]);
            assert(triangle(s, i) =~= triangle(s1, i));
            assert(triangle(f, m[i]) =~= triangle(f1, m1[i]));
        } else {
            let i2 = i - m1.len();
            assert(m[i] == m2[i2] + off);
            assert(triangle(s, i) =~= triangle(s2, i2));
            assert(triangle(f, m[i]) =~= triangle(f2, m2[i2]));
        }
    }
    assert forall|i: int, j: int| 0 <= i < j < m.len() implies m[i] < m[j] by {
        if j < m1.len() {
        } else if i >= m1.len() {
            assert(m2[i - m1.len()] < m2[j - m1.len()]);
        } else {
            assert(m[i] == m1[i]);
            assert(m[j] == m2[j - m1.len()] + off);
            assert(0 <= m2[j - m1.len()]);
        }
    }
    m
}

proof fn lemma_cell_embeds(t: Tiles, x: int, y: int) -> (m: Seq<int>)
    ensures
        embeds(cell_collision_vertices(t, x, y), cell_vertices(t, x, y), m),
{
    lemma_ruleset_selection(t, x, y);
    lemma_table_shape(ruleset_of(t, x, y) as int, mask_of(t, x, y) as int);
    let full = cell_vertices(t, x, y);
    assert(full.len() == cell_points(t, x, y).len());
    if collision_cell(t, x, y) {
        let m = Seq::new(full.len() / 3, |k: int| k);
        assert forall|i: int| 0 <= i < m.len() implies 0 <= #[trigger] m[i] && 3 * m[i] + 3
            <= full.len() && triangle(full, i) == triangle(full, m[i]) by {}
        m
    } else {
        let m = Seq::<int>::empty();
        assert(cell_collision_vertices(t, x, y) =~= seq![]);
        m
    }
}

proof fn lemma_row_embeds(t: Tiles, y: int, n: nat) -> (m: Seq<int>)
    ensures
        embeds(row_collision_vertices(t, y, n), row_vertices(t, y, n), m),
    decreases n,
{
    if n == 0 {
        let m = Seq::<int>::empty();
        assert(embeds(row_collision_vertices(t, y, n), row_vertices(t, y, n), m));
        m
    } else {
        let m1 = lemma_row_embeds(t, y, (n - 1) as nat);
        let m2 = lemma_cell_embeds(t, n - 3, y);
        lemma_embeds_concat(
            row_collision_vertices(t, y, (n - 1) as nat),
            row_vertices(t, y, (n - 1) as nat),
            m1,
            cell_collision_vertices(t, n - 3, y),
            cell_vertices(t, n - 3, y),
            m2,
        )
    }
}

pub(crate) proof fn lemma_rows_embeds(t: Tiles, n: nat) -> (m: Seq<int>)
    ensures
        embeds(rows_collision_vertices(t, n), rows_vertices(t, n), m),
    decreases n,
{
    if n == 0 {
        let m = Seq::<int>::empty();
        assert(embeds(rows_collision_vertices(t, n), rows_vertices(t, n), m));
        m
    } else {
        let m1 = lemma_rows_embeds(t, (n - 1) as nat);
        let m2 = lemma_row_embeds(t, n - 3, row_len(t));
        lemma_embeds_concat(
            rows_collision_vertices(t, (n - 1) as nat),
            rows_vertices(t, (n - 1) as nat),
            m1,
            row_collision_vertices(t, n - 3, row_len(t)),
            row_vertices(t, n - 3, row_len(t)),
            m2,
        )
    }
}

/// Both meshes are whole triangles, and the collider's triangles are, in
/// order, triangles of the render mesh; each cell adds to the collider either
/// all of the vertices it emits or none.
pub proof fn lemma_collision_subset(t: Tiles)
    ensures
        mesh_vertices(t).len() % 3 == 0,
        collision_vertices(t).len() % 3 == 0,
        exists|m: Seq<int>| embeds(collision_vertices(t), mesh_vertices(t), m),
        forall|x: int, y: int|
            #[trigger] cell_collision_vertices(t, x, y) == cell_vertices(t, x, y)
                || cell_collision_vertices(t, x, y).len() == 0,
{
    let m = lemma_rows_embeds(t, rows_len(t));
    assert(embeds(collision_vertices(t), mesh_vertices(t), m));
}

/// Ring points 0, 2, 4 and 6 lie exactly on corners 0 to 3, and point 8 on
/// the centre of the cell.
pub proof fn lemma_fixed_ring_points(t: Tiles, x: int, y: int, p: int)
    requires
        p == 0 || p == 2 || p == 4 || p == 6 || p == 8,
    ensures
        p < 8 ==> local_position(t, x, y, p) == (corner_dx(p / 2), corner_dy(p / 2), 1int),
        p == 8 ==> local_position(t, x, y, p) == (1int, 1int, 2int),
{
    if p < 8 {
        let a = p / 2;
        assert(((p + 1) / 2) % 4 == a);
        let d = corner_density(t, x, y, a);
        assert(abs_diff(d, d) == 0);
        let f = proportion(d, d);
        let ends = snapped_corners(d, d, a as usize, a as usize);
        assert(f.den as int == 1);
        assert(ends.0 as int == a && ends.1 as int == a);
        let n = f.num as int;
        assert(corner_dx(a) * 1 + (corner_dx(a) - corner_dx(a)) * n == corner_dx(a)) by (
        nonlinear_arith);
        assert(corner_dy(a) * 1 + (corner_dy(a) - corner_dy(a)) * n == corner_dy(a)) by (
        nonlinear_arith);
    }
}

/// In a field whose stored densities all equal one positive value, a cell
/// with all four corners in the grid selects the restricted ruleset with mask
/// 0 and emits nothing, and only a cell with no corner in the grid emits.
pub proof fn lemma_uniform_field(t: Tiles, c: i8, x: int, y: int)
    requires
        c > 0,
        forall|i: int, j: int| t.in_grid(i, j) ==> #[trigger] t.density(i, j) == c,
    ensures
        t.in_grid(x, y) && t.in_grid(x + 1, y + 1) ==> {
            &&& ruleset_of(t, x, y) == 1
            &&& mask_of(t, x, y) == 0
            &&& cell_vertices(t, x, y).len() == 0
        },
        cell_vertices(t, x, y).len() > 0 ==> forall|k: int|
            0 <= k < 4 ==> !t.in_grid(x + corner_dx(k), y + corner_dy(k)),
{
    assert forall|k: int| 0 <= k < 4 implies #[trigger] corner_density(t, x, y, k) >= 0 && (t.in_grid(
        x + corner_dx(k),
        y + corner_dy(k),
    ) ==> corner_density(t, x, y, k) > 0) by {
        let i = x + corner_dx(k);
        let j = y + corner_dy(k);
        if t.in_grid(i, j) {
            assert(t.density(i, j) == c);
        }
    }
    lemma_ruleset_selection(t, x, y);
    assert(corner_density(t, x, y, 0) >= 0);
    assert(corner_density(t, x, y, 1) >= 0);
    assert(corner_density(t, x, y, 2) >= 0);
    assert(corner_density(t, x, y, 3) >= 0);
    assert(ruleset_of(t, x, y) == 1);
    if t.in_grid(x, y) && t.in_grid(x + 1, y + 1) {
        assert(corner_density(t, x, y, 0) > 0);
        assert(corner_density(t, x, y, 1) > 0);
        assert(corner_density(t, x, y, 2) > 0);
        assert(corner_density(t, x, y, 3) > 0);
    }
    if cell_vertices(t, x, y).len() > 0 {
        assert(mask_of(t, x, y) == 15);
        assert forall|k: int| 0 <= k < 4 implies !t.in_grid(x + corner_dx(k), y + corner_dy(k)) by {
            assert(corner_density(t, x, y, 0) <= 0);
            assert(corner_density(t, x, y, 1) <= 0);
            assert(corner_density(t, x, y, 2) <= 0);
            assert(corner_density(t, x, y, 3) <= 0);
        }
    }
}

/// A vertex with both coordinates multiplied by `k`.
pub open spec fn scaled(v: (int, int, int), k: int) -> (int, int, int) {
    (v.0 * k, v.1 * k, v.2)
}

proof fn lemma_cell_scaling(t1: Tiles, t2: Tiles, k: nat, x: int, y: int)
    requires
        t1.grid() == t2.grid(),
        t2.spacing() == k * t1.spacing(),
    ensures
        cell_vertices(t2, x, y) == cell_vertices(t1, x, y).map_values(|v| scaled(v, k as int)),
        cell_collision_vertices(t2, x, y) == cell_collision_vertices(t1, x, y).map_values(
            |v| scaled(v, k as int),
        ),
{
    let a = cell_vertices(t2, x, y);
    let b = cell_vertices(t1, x, y).map_values(|v| scaled(v, k as int));
    assert(cell_points(t2, x, y) == cell_points(t1, x, y));
    assert forall|i: int| 0 <= i < a.len() implies a[i] == b[i] by {
        let p = cell_points(t1, x, y)[i] as int;
        let l = local_position(t1, x, y, p);
        assert(local_position(t2, x, y, p) == l);
        let s = t1.spacing() as int;
        let ki = k as int;
        assert((x * l.2 + l.0) * (ki * s) == (x * l.2 + l.0) * s * ki) by (nonlinear_arith);
        assert(-((y * l.2 + l.1) * (ki * s)) == -((y * l.2 + l.1) * s) * ki) by (nonlinear_arith);
        assert(vertex_of(t2, x, y, p) == scaled(vertex_of(t1, x, y, p), ki));
    }
    assert(a =~= b);
    assert(collision_cell(t2, x, y) == collision_cell(t1, x, y));
    if !collision_cell(t1, x, y) {
        assert(cell_collision_vertices(t1, x, y).map_values(|v| scaled(v, k as int)) =~= seq![]);
    }
}

proof fn lemma_row_scaling(t1: Tiles, t2: Tiles, k: nat, y: int, n: nat)
    requires
        t1.grid() == t2.grid(),
        t2.spacing() == k * t1.spacing(),
    ensures
        row_vertices(t2, y, n) == row_vertices(t1, y, n).map_values(|v| scaled(v, k as int)),
        row_collision_vertices(t2, y, n) == row_collision_vertices(t1, y, n).map_values(
            |v| scaled(v, k as int),
        ),
    decreases n,
{
    if n == 0 {
        assert(row_vertices(t1, y, n).map_values(|v| scaled(v, k as int)) =~= seq![]);
        assert(row_collision_vertices(t1, y, n).map_values(|v| scaled(v, k as int)) =~= seq![]);
    } else {
        lemma_row_scaling(t1, t2, k, y, (n - 1) as nat);
        lemma_cell_scaling(t1, t2, k, n - 3, y);
        assert(row_vertices(t1, y, n).map_values(|v| scaled(v, k as int)) =~= row_vertices(
            t1,
            y,
            (n - 1) as nat,
        ).map_values(|v| scaled(v, k as int)) + cell_vertices(t1, n - 3, y).map_values(
            |v| scaled(v, k as int),
        ));
        assert(row_collision_vertices(t1, y, n).map_values(|v| scaled(v, k as int))
            =~= row_collision_vertices(t1, y, (n - 1) as nat).map_values(|v| scaled(v, k as int))
            + cell_collision_vertices(t1, n - 3, y).map_values(|v| scaled(v, k as int)));
    }
}

proof fn lemma_rows_scaling(t1: Tiles, t2: Tiles, k: nat, n: nat)
    requires
        t1.grid() == t2.grid(),
        t2.spacing() == k * t1.spacing(),
    ensures
        rows_vertices(t2, n) == rows_vertices(t1, n).map_values(|v| scaled(v, k as int)),
        rows_collision_vertices(t2, n) == rows_collision_vertices(t1, n).map_values(
            |v| scaled(v, k as int),
        ),
    decreases n,
{
    if n == 0 {
        assert(rows_vertices(t1, n).map_values(|v| scaled(v, k as int)) =~= seq![]);
        assert(rows_collision_vertices(t1, n).map_values(|v| scaled(v, k as int)) =~= seq![]);
    } else {
        lemma_rows_scaling(t1, t2, k, (n - 1) as nat);
        lemma_row_scaling(t1, t2, k, n - 3, row_len(t1));
        assert(rows_vertices(t1, n).map_values(|v| scaled(v, k as int)) =~= rows_vertices(
            t1,
            (n - 1) as nat,
        ).map_values(|v| scaled(v, k as int)) + row_vertices(t1, n - 3, row_len(t1)).map_values(
            |v| scaled(v, k as int),
        ));
        assert(rows_collision_vertices(t1, n).map_values(|v| scaled(v, k as int))
            =~= rows_collision_vertices(t1, (n - 1) as nat).map_values(|v| scaled(v, k as int))
            + row_collision_vertices(t1, n - 3, row_len(t1)).map_values(|v| scaled(v, k as int)));
    }
}

/// Two fields with the same densities, the second with `k` times the
/// spacing, classify every cell alike, and every vertex of either mesh of the
/// second is the matching vertex of the first with its coordinates times `k`.
pub proof fn lemma_scaling(t1: Tiles, t2: Tiles, k: nat)
    requires
        t1.grid() == t2.grid(),
        t2.spacing() == k * t1.spacing(),
    ensures
        forall|x: int, y: int|
            #[trigger] ruleset_of(t2, x, y) == ruleset_of(t1, x, y) && mask_of(t2, x, y)
                == mask_of(t1, x, y) && collision_cell(t2, x, y) == collision_cell(t1, x, y),
        mesh_vertices(t2) == mesh_vertices(t1).map_values(|v| scaled(v, k as int)),
        collision_vertices(t2) == collision_vertices(t1).map_values(|v| scaled(v, k as int)),
{
    lemma_rows_scaling(t1, t2, k, rows_len(t1));
}

/// No corner of the cell anchored at (x, y) lies in the grid.
pub open spec fn cell_outside(t: Tiles, x: int, y: int) -> bool {
    x + 1 < 0 || x >= t.width() || y + 1 < 0 || y >= t.height()
}

proof fn lemma_uniform_cell_count(t: Tiles, c: i8, x: int, y: int)
    requires
        c > 0,
        t.width() >= 1,
        t.height() >= 1,
        forall|i: int, j: int| t.in_grid(i, j) ==> #[trigger] t.density(i, j) == c,
    ensures
        cell_vertices(t, x, y).len() == if cell_outside(t, x, y) {
            12int
        } else {
            0int
        },
{
    lemma_uniform_field(t, c, x, y);
    lemma_ruleset_selection(t, x, y);
    if cell_outside(t, x, y) {
        assert(!t.in_grid(x, y));
        assert(!t.in_grid(x + 1, y));
        assert(!t.in_grid(x + 1, y + 1));
        assert(!t.in_grid(x, y + 1));
        assert(corner_density(t, x, y, 0) == 0);
        assert(corner_density(t, x, y, 1) == 0);
        assert(corner_density(t, x, y, 2) == 0);
        assert(corner_density(t, x, y, 3) == 0);
        assert(ruleset_of(t, x, y) == 1);
        assert(mask_of(t, x, y) == 15);
        assert(cell_points(t, x, y).len() == 12);
    } else {
        let i = if x < 0 {
            x + 1
        } else {
            x
        };
        let j = if y < 0 {
            y + 1
        } else {
            y
        };
        assert(t.in_grid(i, j));
        let k = if i == x {
            if j == y {
                0int
            } else {
                3int
            }
        } else {
            if j == y {
                1int
            } else {
                2int
            }
        };
        assert(t.in_grid(x + corner_dx(k), y + corner_dy(k)));
    }
}

proof fn lemma_uniform_row_count(t: Tiles, c: i8, y: int, n: nat)
    requires
        c > 0,
        t.width() >= 1,
        t.height() >= 1,
        forall|i: int, j: int| t.in_grid(i, j) ==> #[trigger] t.density(i, j) == c,
        n <= row_len(t),
    ensures
        (y + 1 < 0 || y >= t.height()) ==> row_vertices(t, y, n).len() == 12 * n,
        (0 <= y + 1 && y < t.height()) ==> row_vertices(t, y, n).len() == 12 * (if n == 0 {
            0int
        } else if n < row_len(t) {
            1int
        } else {
            2int
        }),
    decreases n,
{
    if n > 0 {
        lemma_uniform_row_count(t, c, y, (n - 1) as nat);
        lemma_uniform_cell_count(t, c, n - 3, y);
    }
}

proof fn lemma_uniform_rows_count(t: Tiles, c: i8, n: nat)
    requires
        c > 0,
        t.width() >= 1,
        t.height() >= 1,
        forall|i: int, j: int| t.in_grid(i, j) ==> #[trigger] t.density(i, j) == c,
        n <= rows_len(t),
    ensures
        rows_vertices(t, n).len() == if n == 0 {
            0
        } else if n < rows_len(t) {
            12 * row_len(t) + 24 * (n - 1)
        } else {
            24 * row_len(t) + 24 * (n - 2)
        },
    decreases n,
{
    if n > 0 {
        lemma_uniform_rows_count(t, c, (n - 1) as nat);
        lemma_uniform_row_count(t, c, n - 3, row_len(t));
    }
}

/// In a field of width and height at least 1 whose stored densities all
/// equal one positive value, the render mesh holds one full square (12
/// vertices) for each of the margin cells with no corner in the grid, and
/// nothing else.
pub proof fn lemma_uniform_field_count(t: Tiles, c: i8)
    requires
        c > 0,
        t.width() >= 1,
        t.height() >= 1,
        forall|i: int, j: int| t.in_grid(i, j) ==> #[trigger] t.density(i, j) == c,
    ensures
        mesh_vertices(t).len() == 12 * ((t.width() + 3) * (t.height() + 3) - (t.width() + 1) * (
        t.height() + 1)),
{
    lemma_uniform_rows_count(t, c, rows_len(t));
    let w = t.width();
    let h = t.height();
    assert((w + 3) * (h + 3) - (w + 1) * (h + 1) == 2 * w + 2 * h + 8) by (nonlinear_arith);
}

} // verus!
