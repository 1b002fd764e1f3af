use vstd::prelude::*;

use crate::lemmas::{embeds, lemma_rows_embeds};
use crate::point::Point;
use crate::tables::{lemma_table_shape, triangle_mappings, triangle_table};
use crate::tiles::Tiles;

verus! {

/// Horizontal offset of corner `c` of a cell; corners run (0,0), (1,0), (1,1), (0,1).
pub open spec fn corner_dx(c: int) -> int {
    if c == 1 || c == 2 {
        1
    } else {
        0
    }
}

/// Vertical offset of corner `c` of a cell.
pub open spec fn corner_dy(c: int) -> int {
    if c == 2 || c == 3 {
        1
    } else {
        0
    }
}

/// Density at corner `c` of the cell anchored at (x, y).
pub open spec fn corner_density(t: Tiles, x: int, y: int, c: int) -> i8 {
    t.density(x + corner_dx(c), y + corner_dy(c))
}

/// 1 when no corner of the cell has a negative density (the restricted
/// ruleset), else 0 (the general ruleset).
pub open spec fn ruleset_of(t: Tiles, x: int, y: int) -> usize {
    if corner_density(t, x, y, 0) >= 0 && corner_density(t, x, y, 1) >= 0 && corner_density(
        t,
        x,
        y,
        2,
    ) >= 0 && corner_density(t, x, y, 3) >= 0 {
        1
    } else {
        0
    }
}

/// 1 for a corner that counts as solid (density not positive), else 0.
pub open spec fn solid_bit(d: i8) -> int {
    if d > 0 {
        0
    } else {
        1
    }
}

/// Bit `c` is set when corner `c` of the cell is solid.
pub open spec fn mask_of(t: Tiles, x: int, y: int) -> usize {
    (solid_bit(corner_density(t, x, y, 0)) + 2 * solid_bit(corner_density(t, x, y, 1)) + 4
        * solid_bit(corner_density(t, x, y, 2)) + 8 * solid_bit(
        corner_density(t, x, y, 3),
    )) as usize
}

/// A cell selects the restricted ruleset exactly when none of its corner
/// densities is negative, and the general ruleset exactly when one is.
pub proof fn lemma_ruleset_selection(t: Tiles, x: int, y: int)
    ensures
        (ruleset_of(t, x, y) == 1) <==> (forall|c: int|
            0 <= c < 4 ==> #[trigger] corner_density(t, x, y, c) >= 0),
        (ruleset_of(t, x, y) == 0) <==> (exists|c: int|
            0 <= c < 4 && #[trigger] corner_density(t, x, y, c) < 0),
        ruleset_of(t, x, y) < 2,
        mask_of(t, x, y) < 16,
{
    if ruleset_of(t, x, y) == 0 {
        if corner_density(t, x, y, 0) < 0 {
        } else if corner_density(t, x, y, 1) < 0 {
        } else if corner_density(t, x, y, 2) < 0 {
        } else {
            assert(corner_density(t, x, y, 3) < 0);
        }
    } else {
        assert forall|c: int| 0 <= c < 4 implies #[trigger] corner_density(t, x, y, c) >= 0 by {
            if c == 0 {
            } else if c == 1 {
            } else if c == 2 {
            } else {
            }
        }
    }
}

/// Which ruleset and which entry of its table apply to the cell at `loc`.
/// Defined for every cell coordinate, inside the grid or not.
pub fn get_ruleset_and_map_id(loc: Point<i32, 2>, tiles: &Tiles) -> (r: (usize, usize))
    requires
        tiles.wf(),
    ensures
        r.0 == ruleset_of(*tiles, loc.v[0] as int, loc.v[1] as int),
        r.1 == mask_of(*tiles, loc.v[0] as int, loc.v[1] as int),
{
    let x = loc.v[0] as i64;
    let y = loc.v[1] as i64;
    let d0 = tiles.density_at(x, y);
    let d1 = tiles.density_at(x + 1, y);
    let d2 = tiles.density_at(x + 1, y + 1);
    let d3 = tiles.density_at(x, y + 1);
    let ruleset: usize = if d0 >= 0 && d1 >= 0 && d2 >= 0 && d3 >= 0 {
        1
    } else {
        0
    };
    let mut map_id: usize = 0;
    if d0 <= 0 {
        map_id = map_id + 1;
    }
    if d1 <= 0 {
        map_id = map_id + 2;
    }
    if d2 <= 0 {
        map_id = map_id + 4;
    }
    if d3 <= 0 {
        map_id = map_id + 8;
    }
    (ruleset, map_id)
}

/// An interpolation factor `num / den` along a cell edge.
#[derive(Clone, Copy, Debug, PartialEq, Eq, Structural)]
pub struct Fraction {
    pub num: u32,
    pub den: u32,
}

/// Absolute value of a density.
pub open spec fn abs_i8(d: i8) -> int {
    if d >= 0 {
        d as int
    } else {
        -(d as int)
    }
}

/// Distance between two densities.
pub open spec fn abs_diff(a: i8, b: i8) -> int {
    if a >= b {
        a - b
    } else {
        b - a
    }
}

/// How far along the edge from corner a to corner b the surface crosses,
/// for corner densities `d_a` and `d_b`.
pub open spec fn proportion(d_a: i8, d_b: i8) -> Fraction {
    if d_b == 0 {
        Fraction { num: 1, den: 1 }
    } else if abs_diff(d_a, d_b) == 0 || d_a == 0 {
        Fraction { num: 0, den: 1 }
    } else {
        Fraction { num: abs_i8(d_a) as u32, den: abs_diff(d_a, d_b) as u32 }
    }
}

/// The pair of corners that the factor of `proportion` interpolates between:
/// both b when the crossing snaps to b, both a when it snaps to a, else (a, b).
pub open spec fn snapped_corners(d_a: i8, d_b: i8, a: usize, b: usize) -> (usize, usize) {
    if d_b == 0 {
        (b, b)
    } else if abs_diff(d_a, d_b) == 0 || d_a == 0 {
        (a, a)
    } else {
        (a, b)
    }
}

/// The crossing point on the edge between two corners of densities
/// `densities[0]` and `densities[1]`, as a factor and the corners it applies to.
pub fn density_proportion(densities: [i8; 2], corner_indices: [usize; 2]) -> (r: (
    Fraction,
    [usize; 2],
))
    ensures
        r.0 == proportion(densities[0], densities[1]),
        (r.1[0], r.1[1]) == snapped_corners(
            densities[0],
            densities[1],
            corner_indices[0],
            corner_indices[1],
        ),
        r.0.den >= 1,
        r.0.num <= 128,
        r.0.den <= 255,
{
    let d_a = densities[0] as i32;
    let d_b = densities[1] as i32;
    let diff: i32 = if d_a >= d_b {
        d_a - d_b
    } else {
        d_b - d_a
    };
    if d_b == 0 {
        (Fraction { num: 1, den: 1 }, [corner_indices[1], corner_indices[1]])
    } else if diff == 0 || d_a == 0 {
        (Fraction { num: 0, den: 1 }, [corner_indices[0], corner_indices[0]])
    } else {
        let a: i32 = if d_a >= 0 {
            d_a
        } else {
            -d_a
        };
        (Fraction { num: a as u32, den: diff as u32 }, corner_indices)
    }
}

/// The two corners whose edge holds ring point `index` (0 to 7); an even
/// index is a corner itself and gives that corner twice.
pub fn index_to_corner_indices(index: usize) -> (r: [usize; 2])
    requires
        index < 8,
    ensures
        r[0] == index / 2,
        r[1] == ((index + 1) / 2) % 4,
        r[0] < 4,
        r[1] < 4,
{
    [index / 2, ((index + 1) / 2) % 4]
}

/// The crossing point on the edge between corners `corner_indices` of the
/// cell at `loc`.
pub fn get_density_proportion(loc: Point<i32, 2>, corner_indices: [usize; 2], tiles: &Tiles) -> (r: (
    Fraction,
    [usize; 2],
))
    requires
        tiles.wf(),
        corner_indices[0] < 4,
        corner_indices[1] < 4,
    ensures
        r.0 == proportion(
            corner_density(*tiles, loc.v[0] as int, loc.v[1] as int, corner_indices[0] as int),
            corner_density(*tiles, loc.v[0] as int, loc.v[1] as int, corner_indices[1] as int),
        ),
        (r.1[0], r.1[1]) == snapped_corners(
            corner_density(*tiles, loc.v[0] as int, loc.v[1] as int, corner_indices[0] as int),
            corner_density(*tiles, loc.v[0] as int, loc.v[1] as int, corner_indices[1] as int),
            corner_indices[0],
            corner_indices[1],
        ),
        r.0.den >= 1,
        r.0.num <= 128,
        r.0.den <= 255,
{
    let d_a = corner_sample(loc, corner_indices[0], tiles);
    let d_b = corner_sample(loc, corner_indices[1], tiles);
    density_proportion([d_a, d_b], corner_indices)
}

fn corner_sample(loc: Point<i32, 2>, corner: usize, tiles: &Tiles) -> (r: i8)
    requires
        tiles.wf(),
        corner < 4,
    ensures
        r == corner_density(*tiles, loc.v[0] as int, loc.v[1] as int, corner as int),
{
    let dx: i64 = if corner == 1 || corner == 2 {
        1
    } else {
        0
    };
    let dy: i64 = if corner == 2 || corner == 3 {
        1
    } else {
        0
    };
    tiles.density_at(loc.v[0] as i64 + dx, loc.v[1] as i64 + dy)
}

/// A vertex in world units: (x / den, y / den, 0). World y grows opposite to
/// the grid's second axis.
#[derive(Clone, Copy, Debug, PartialEq, Eq, Structural)]
pub struct Vertex {
    pub x: i128,
    pub y: i128,
    pub den: u32,
}

impl View for Vertex {
    type V = (int, int, int);

    open spec fn view(&self) -> (int, int, int) {
        (self.x as int, self.y as int, self.den as int)
    }
}

/// Position of ring point `p` in the cell anchored at (x, y), relative to that
/// anchor in grid steps, as numerators over a common denominator:
/// (num_x, num_y, den).
pub open spec fn local_position(t: Tiles, x: int, y: int, p: int) -> (int, int, int) {
    if p == 8 {
        (1, 1, 2)
    } else {
        let a = p / 2;
        let b = ((p + 1) / 2) % 4;
        let d_a = corner_density(t, x, y, a);
        let d_b = corner_density(t, x, y, b);
        let f = proportion(d_a, d_b);
        let ends = snapped_corners(d_a, d_b, a as usize, b as usize);
        let ca = ends.0 as int;
        let cb = ends.1 as int;
        let num = f.num as int;
        let den = f.den as int;
        (
            corner_dx(ca) * den + (corner_dx(cb) - corner_dx(ca)) * num,
            corner_dy(ca) * den + (corner_dy(cb) - corner_dy(ca)) * num,
            den,
        )
    }
}

/// World position of ring point `p` of the cell anchored at (x, y): the local
/// position plus the anchor, scaled by the spacing, with y negated.
pub open spec fn vertex_of(t: Tiles, x: int, y: int, p: int) -> (int, int, int) {
    let l = local_position(t, x, y, p);
    let s = t.spacing() as int;
    ((x * l.2 + l.0) * s, -((y * l.2 + l.1) * s), l.2)
}

/// The world vertex of ring point `point` (0 to 8) of the cell at `loc`.
pub fn ring_point_vertex(loc: Point<i32, 2>, point: usize, tiles: &Tiles) -> (r: Vertex)
    requires
        tiles.wf(),
        point <= 8,
    ensures
        r@ == vertex_of(*tiles, loc.v[0] as int, loc.v[1] as int, point as int),
{
    let (lx, ly, den): (i128, i128, u32) = if point == 8 {
        (1, 1, 2)
    } else {
        let corner_indices = index_to_corner_indices(point);
        let (prop, ends) = get_density_proportion(loc, corner_indices, tiles);
        let ax = corner_x(ends[0]);
        let ay = corner_y(ends[0]);
        let bx = corner_x(ends[1]);
        let by = corner_y(ends[1]);
        let num = prop.num as i128;
        let den = prop.den as i128;
        assert(-128 <= (bx - ax) * num <= 128 && -128 <= (by - ay) * num <= 128)
            by (nonlinear_arith)
            requires
                -1 <= bx - ax <= 1,
                -1 <= by - ay <= 1,
                0 <= num <= 128,
        ;
        assert(0 <= ax * den <= 255 && 0 <= ay * den <= 255) by (nonlinear_arith)
            requires
                0 <= ax <= 1,
                0 <= ay <= 1,
                1 <= den <= 255,
        ;
        (ax * den + (bx - ax) * num, ay * den + (by - ay) * num, prop.den)
    };
    let s = tiles.dist_between_nodes() as i128;
    let x = loc.v[0] as i128;
    let y = loc.v[1] as i128;
    let d = den as i128;
    proof {
        lemma_world_bound(x as int, d as int, lx as int, s as int);
        lemma_world_bound(y as int, d as int, ly as int, s as int);
    }
    Vertex { x: (x * d + lx) * s, y: -((y * d + ly) * s), den }
}

proof fn lemma_world_bound(x: int, d: int, l: int, s: int)
    requires
        -0x8000_0000 <= x < 0x8000_0000,
        1 <= d <= 255,
        -400 <= l <= 400,
        0 <= s <= 0xffff_ffff,
    ensures
        -0x1_0000_0000_0000 <= x * d <= 0x1_0000_0000_0000,
        -0x1_0000_0000_0000_0000_0000 <= (x * d + l) * s <= 0x1_0000_0000_0000_0000_0000,
{
    assert(-0x8000_0000 * 255 <= x * d <= 0x8000_0000 * 255) by (nonlinear_arith)
        requires
            -0x8000_0000 <= x < 0x8000_0000,
            1 <= d <= 255,
    ;
    let w = x * d + l;
    assert(-0x1_0000_0000_0000 <= w <= 0x1_0000_0000_0000);
    assert(-0x1_0000_0000_0000 * 0xffff_ffff <= w * s <= 0x1_0000_0000_0000 * 0xffff_ffff)
        by (nonlinear_arith)
        requires
            -0x1_0000_0000_0000 <= w <= 0x1_0000_0000_0000,
            0 <= s <= 0xffff_ffff,
    ;
}

fn corner_x(c: usize) -> (r: i128)
    ensures
        r == corner_dx(c as int),
{
    if c == 1 || c == 2 {
        1
    } else {
        0
    }
}

fn corner_y(c: usize) -> (r: i128)
    ensures
        r == corner_dy(c as int),
{
    if c == 2 || c == 3 {
        1
    } else {
        0
    }
}

/// The cell selects the restricted ruleset without being fully solid.
pub open spec fn open_restricted(t: Tiles, x: int, y: int) -> bool {
    ruleset_of(t, x, y) == 1 && mask_of(t, x, y) != 15
}

/// The triangles of the cell belong to the collider: a cell of the general
/// ruleset that is not fully solid, or a fully solid restricted cell with a
/// cardinal neighbour that is restricted and not fully solid.
pub open spec fn collision_cell(t: Tiles, x: int, y: int) -> bool {
    let rs = ruleset_of(t, x, y);
    let m = mask_of(t, x, y);
    (rs == 0 && m != 15) || (rs == 1 && m == 15 && (open_restricted(t, x - 1, y)
        || open_restricted(t, x + 1, y) || open_restricted(t, x, y - 1) || open_restricted(
        t,
        x,
        y + 1,
    )))
}

/// The ring points that the cell's table entry lists.
pub open spec fn cell_points(t: Tiles, x: int, y: int) -> Seq<usize> {
    triangle_table(ruleset_of(t, x, y) as int, mask_of(t, x, y) as int)
}

/// The vertices that the cell emits, in table order.
pub open spec fn cell_vertices(t: Tiles, x: int, y: int) -> Seq<(int, int, int)> {
    cell_points(t, x, y).map_values(|p: usize| vertex_of(t, x, y, p as int))
}

/// The vertices that the cell adds to the collider.
pub open spec fn cell_collision_vertices(t: Tiles, x: int, y: int) -> Seq<(int, int, int)> {
    if collision_cell(t, x, y) {
        cell_vertices(t, x, y)
    } else {
        seq![]
    }
}

/// Vertices of the first `n` cells of row `y`, starting at x = -2.
pub open spec fn row_vertices(t: Tiles, y: int, n: nat) -> Seq<(int, int, int)>
    decreases n,
{
    if n == 0 {
        seq![]
    } else {
        row_vertices(t, y, (n - 1) as nat) + cell_vertices(t, n - 3, y)
    }
}

/// Collider vertices of the first `n` cells of row `y`, starting at x = -2.
pub open spec fn row_collision_vertices(t: Tiles, y: int, n: nat) -> Seq<(int, int, int)>
    decreases n,
{
    if n == 0 {
        seq![]
    } else {
        row_collision_vertices(t, y, (n - 1) as nat) + cell_collision_vertices(t, n - 3, y)
    }
}

/// Number of cells in a row: the grid's width plus two cells of margin below
/// and one above.
pub open spec fn row_len(t: Tiles) -> nat {
    (t.width() + 3) as nat
}

/// Vertices of the first `n` rows, starting at y = -2.
pub open spec fn rows_vertices(t: Tiles, n: nat) -> Seq<(int, int, int)>
    decreases n,
{
    if n == 0 {
        seq![]
    } else {
        rows_vertices(t, (n - 1) as nat) + row_vertices(t, n - 3, row_len(t))
    }
}

/// Collider vertices of the first `n` rows, starting at y = -2.
pub open spec fn rows_collision_vertices(t: Tiles, n: nat) -> Seq<(int, int, int)>
    decreases n,
{
    if n == 0 {
        seq![]
    } else {
        rows_collision_vertices(t, (n - 1) as nat) + row_collision_vertices(t, n - 3, row_len(t))
    }
}

/// Number of rows: the grid's height plus the same margins.
pub open spec fn rows_len(t: Tiles) -> nat {
    (t.height() + 3) as nat
}

/// The render mesh: the vertices of every cell from (-2, -2) to
/// (width, height), row by row.
pub open spec fn mesh_vertices(t: Tiles) -> Seq<(int, int, int)> {
    rows_vertices(t, rows_len(t))
}

/// The collider mesh: the same walk, keeping the collision cells only.
pub open spec fn collision_vertices(t: Tiles) -> Seq<(int, int, int)> {
    rows_collision_vertices(t, rows_len(t))
}

/// The values of a vertex list.
pub open spec fn views(s: Seq<Vertex>) -> Seq<(int, int, int)> {
    s.map_values(|v: Vertex| v@)
}

proof fn lemma_views_push(s: Seq<Vertex>, v: Vertex)
    ensures
        views(s.push(v)) == views(s).push(v@),
{
    assert(views(s.push(v)) =~= views(s).push(v@));
}

fn collision_relevant(loc: Point<i32, 2>, ruleset: usize, map_id: usize, tiles: &Tiles) -> (r:
    bool)
    requires
        tiles.wf(),
        ruleset == ruleset_of(*tiles, loc.v[0] as int, loc.v[1] as int),
        map_id == mask_of(*tiles, loc.v[0] as int, loc.v[1] as int),
        i32::MIN < loc.v[0] < i32::MAX,
        i32::MIN < loc.v[1] < i32::MAX,
    ensures
        r == collision_cell(*tiles, loc.v[0] as int, loc.v[1] as int),
{
    if ruleset == 0 {
        map_id != 15
    } else if map_id != 15 {
        false
    } else {
        let x = loc.v[0];
        let y = loc.v[1];
        let neighbours = [
            Point::new([x - 1, y]),
            Point::new([x + 1, y]),
            Point::new([x, y - 1]),
            Point::new([x, y + 1]),
        ];
        let mut k: usize = 0;
        let mut found = false;
        while k < 4
            invariant
                tiles.wf(),
                k <= 4,
                neighbours[0].v[0] == x - 1 && neighbours[0].v[1] == y,
                neighbours[1].v[0] == x + 1 && neighbours[1].v[1] == y,
                neighbours[2].v[0] == x && neighbours[2].v[1] == y - 1,
                neighbours[3].v[0] == x && neighbours[3].v[1] == y + 1,
                found == exists|j: int|
                    0 <= j < k && open_restricted(
                        *tiles,
                        #[trigger] neighbours[j].v[0] as int,
                        neighbours[j].v[1] as int,
                    ),
            decreases 4 - k,
        {
            let (rs, m) = get_ruleset_and_map_id(neighbours[k], tiles);
            if rs == 1 && m != 15 {
                found = true;
            }
            k = k + 1;
        }
        proof {
            if open_restricted(*tiles, x - 1, y as int) {
                assert(open_restricted(*tiles, neighbours[0].v[0] as int, neighbours[0].v[1] as int));
            }
            if open_restricted(*tiles, x + 1, y as int) {
                assert(open_restricted(*tiles, neighbours[1].v[0] as int, neighbours[1].v[1] as int));
            }
            if open_restricted(*tiles, x as int, y - 1) {
                assert(open_restricted(*tiles, neighbours[2].v[0] as int, neighbours[2].v[1] as int));
            }
            if open_restricted(*tiles, x as int, y + 1) {
                assert(open_restricted(*tiles, neighbours[3].v[0] as int, neighbours[3].v[1] as int));
            }
        }
        found
    }
}

proof fn lemma_output_triangles(t: Tiles, full: Seq<Vertex>, coll: Seq<Vertex>)
    requires
        views(full) == mesh_vertices(t),
        views(coll) == collision_vertices(t),
    ensures
        full.len() % 3 == 0,
        coll.len() % 3 == 0,
        exists|m: Seq<int>| embeds(views(coll), views(full), m),
{
    let m = lemma_rows_embeds(t, rows_len(t));
    assert(views(full).len() == full.len());
    assert(views(coll).len() == coll.len());
    assert(embeds(views(coll), views(full), m));
}

/// Polygonises the density field. Every cell from (-2, -2) to
/// (width, height) is classified and emits the vertices of its table entry,
/// row by row; the first list is the render mesh, the second the collider
/// mesh. Every three consecutive vertices form one triangle.
pub fn marching_squares(tiles: &Tiles) -> (r: (Vec<Vertex>, Vec<Vertex>))
    requires
        tiles.wf(),
        tiles.width() < i32::MAX,
        tiles.height() < i32::MAX,
    ensures
        views(r.0@) == mesh_vertices(*tiles),
        views(r.1@) == collision_vertices(*tiles),
        r.0@.len() % 3 == 0,
        r.1@.len() % 3 == 0,
        exists|m: Seq<int>| embeds(views(r.1@), views(r.0@), m),
{
    let tables = triangle_mappings();
    let dim = tiles.dimension();
    let x_end = dim[0] as i32 + 1;
    let y_end = dim[1] as i32 + 1;
    let ghost t = *tiles;
    let mut vertices: Vec<Vertex> = Vec::new();
    let mut collision_verts: Vec<Vertex> = Vec::new();
    let mut y: i32 = -2;
    while y < y_end
        invariant
            tiles.wf(),
            t == *tiles,
            x_end == t.width() + 1,
            y_end == t.height() + 1,
            x_end <= i32::MAX,
            -2 <= y <= y_end,
            tables@.len() == 2,
            forall|s: int| 0 <= s < 2 ==> (#[trigger] tables@[s])@.len() == 16,
            forall|s: int, m: int|
                0 <= s < 2 && 0 <= m < 16 ==> (#[trigger] tables@[s]@[m])@ == triangle_table(s, m),
            views(vertices@) == rows_vertices(t, (y + 2) as nat),
            views(collision_verts@) == rows_collision_vertices(t, (y + 2) as nat),
        decreases y_end - y,
    {
        let mut x: i32 = -2;
        while x < x_end
            invariant
                tiles.wf(),
                t == *tiles,
                x_end == t.width() + 1,
                y_end == t.height() + 1,
                x_end <= i32::MAX,
                -2 <= y < y_end,
                -2 <= x <= x_end,
                tables@.len() == 2,
                forall|s: int| 0 <= s < 2 ==> (#[trigger] tables@[s])@.len() == 16,
                forall|s: int, m: int|
                    0 <= s < 2 && 0 <= m < 16 ==> (#[trigger] tables@[s]@[m])@ == triangle_table(
                        s,
                        m,
                    ),
                views(vertices@) == rows_vertices(t, (y + 2) as nat) + row_vertices(
                    t,
                    y as int,
                    (x + 2) as nat,
                ),
                views(collision_verts@) == rows_collision_vertices(t, (y + 2) as nat)
                    + row_collision_vertices(t, y as int, (x + 2) as nat),
            decreases x_end - x,
        {
            let loc = Point::new([x, y]);
            let (ruleset, map_id) = get_ruleset_and_map_id(loc, tiles);
            proof {
                lemma_ruleset_selection(t, x as int, y as int);
                lemma_table_shape(ruleset as int, map_id as int);
            }
            let collides = collision_relevant(loc, ruleset, map_id, tiles);
            let points = &tables[ruleset][map_id];
            let ghost base = views(vertices@);
            let ghost coll_base = views(collision_verts@);
            let ghost cell = cell_vertices(t, x as int, y as int);
            let mut i: usize = 0;
            while i < points.len()
                invariant
                    tiles.wf(),
                    t == *tiles,
                    loc.v[0] == x && loc.v[1] == y,
                    points@ == cell_points(t, x as int, y as int),
                    forall|j: int| 0 <= j < points@.len() ==> #[trigger] points@[j] <= 8,
                    cell == cell_vertices(t, x as int, y as int),
                    collides == collision_cell(t, x as int, y as int),
                    i <= points.len(),
                    views(vertices@) == base + cell.subrange(0, i as int),
                    views(collision_verts@) == coll_base + (if collides {
                        cell.subrange(0, i as int)
                    } else {
                        seq![]
                    }),
                decreases points.len() - i,
            {
                let v = ring_point_vertex(loc, points[i], tiles);
                proof {
                    lemma_views_push(vertices@, v);
                    lemma_views_push(collision_verts@, v);
                    assert(cell.subrange(0, i + 1) =~= cell.subrange(0, i as int).push(v@));
                }
                vertices.push(v);
                if collides {
                    collision_verts.push(v);
                }
                i = i + 1;
            }
            proof {
                assert(cell.subrange(0, i as int) =~= cell);
                assert(row_vertices(t, y as int, (x + 3) as nat) == row_vertices(
                    t,
                    y as int,
                    (x + 2) as nat,
                ) + cell);
                assert(views(vertices@) =~= rows_vertices(t, (y + 2) as nat) + row_vertices(
                    t,
                    y as int,
                    (x + 3) as nat,
                ));
                assert(views(collision_verts@) =~= rows_collision_vertices(t, (y + 2) as nat)
                    + row_collision_vertices(t, y as int, (x + 3) as nat));
            }
            x = x + 1;
        }
        proof {
            assert(row_len(t) == (x + 2) as nat);
        }
        y = y + 1;
    }
    proof {
        lemma_output_triangles(t, vertices@, collision_verts@);
    }
    (vertices, collision_verts)
}

} // verus!
