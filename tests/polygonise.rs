use terrain_mesh::marching_squares::{
    density_proportion, get_density_proportion, get_ruleset_and_map_id, index_to_corner_indices,
    marching_squares, ring_point_vertex, Fraction, Vertex,
};
use terrain_mesh::matrix::Matrix;
use terrain_mesh::point::Point;
use terrain_mesh::tables::triangle_mappings;
use terrain_mesh::tiles::Tiles;

fn grid(w: usize, h: usize, cells: &[((usize, usize), i8)], fill: i8) -> Matrix<i8, 2> {
    let mut m = Matrix::new([w, h]);
    for y in 0..h {
        for x in 0..w {
            m.set([x, y], fill);
        }
    }
    for &((x, y), d) in cells {
        m.set([x, y], d);
    }
    m
}

fn v(x: i128, y: i128, den: u32) -> Vertex {
    Vertex { x, y, den }
}

#[test]
fn tables_have_sixteen_entries_each() {
    let t = triangle_mappings();
    assert_eq!(t.len(), 2);
    assert_eq!(t[0].len(), 16);
    assert_eq!(t[1].len(), 16);
    for ruleset in 0..2 {
        for mask in 0..16 {
            let e = &t[ruleset][mask];
            assert_eq!(e.len() % 3, 0);
            assert!(e.iter().all(|&p| p <= 8));
        }
    }
}

#[test]
fn default_table_entries() {
    let expected: [&[usize]; 16] = [
        &[],
        &[7, 1, 0],
        &[3, 2, 1],
        &[7, 2, 0, 7, 3, 2],
        &[5, 4, 3],
        &[7, 1, 0, 5, 4, 3, 7, 3, 1, 7, 5, 3],
        &[1, 4, 2, 1, 5, 4],
        &[2, 0, 7, 5, 2, 7, 4, 2, 5],
        &[7, 6, 5],
        &[0, 5, 1, 0, 6, 5],
        &[3, 2, 1, 7, 6, 5, 7, 3, 1, 7, 5, 3],
        &[6, 5, 0, 5, 3, 0, 3, 2, 0],
        &[6, 3, 7, 6, 4, 3],
        &[6, 4, 3, 6, 3, 1, 6, 1, 0],
        &[6, 4, 7, 4, 1, 7, 4, 2, 1],
        &[0, 6, 8, 0, 8, 2, 4, 8, 2, 6, 8, 4],
    ];
    let t = triangle_mappings();
    for mask in 0..16 {
        assert_eq!(t[0][mask].as_slice(), expected[mask], "mask {}", mask);
    }
}

#[test]
fn restricted_table_entries() {
    let t = triangle_mappings();
    for mask in 0..15 {
        assert!(t[1][mask].is_empty(), "mask {}", mask);
    }
    assert_eq!(t[1][15], vec![0, 6, 8, 0, 8, 2, 4, 8, 2, 6, 8, 4]);
}

#[test]
fn corner_indices_of_ring_points() {
    assert_eq!(index_to_corner_indices(0), [0, 0]);
    assert_eq!(index_to_corner_indices(1), [0, 1]);
    assert_eq!(index_to_corner_indices(2), [1, 1]);
    assert_eq!(index_to_corner_indices(3), [1, 2]);
    assert_eq!(index_to_corner_indices(4), [2, 2]);
    assert_eq!(index_to_corner_indices(5), [2, 3]);
    assert_eq!(index_to_corner_indices(6), [3, 3]);
    assert_eq!(index_to_corner_indices(7), [3, 0]);
}

#[test]
fn interpolation_snaps_to_b_when_b_is_zero() {
    assert_eq!(density_proportion([2, 0], [0, 1]), (Fraction { num: 1, den: 1 }, [1, 1]));
}

#[test]
fn interpolation_snaps_to_a_when_a_is_zero() {
    assert_eq!(density_proportion([0, 5], [0, 1]), (Fraction { num: 0, den: 1 }, [0, 0]));
}

#[test]
fn interpolation_halfway_between_opposite_densities() {
    assert_eq!(density_proportion([1, -1], [2, 3]), (Fraction { num: 1, den: 2 }, [2, 3]));
}

#[test]
fn interpolation_equal_densities_snap_to_a() {
    assert_eq!(density_proportion([3, 3], [1, 2]), (Fraction { num: 0, den: 1 }, [1, 1]));
}

#[test]
fn interpolation_general_factor() {
    assert_eq!(density_proportion([-3, 1], [3, 0]), (Fraction { num: 3, den: 4 }, [3, 0]));
    assert_eq!(density_proportion([5, 3], [0, 1]), (Fraction { num: 5, den: 2 }, [0, 1]));
    assert_eq!(
        density_proportion([-128, 127], [0, 1]),
        (Fraction { num: 128, den: 255 }, [0, 1])
    );
}

#[test]
fn classification_far_outside_grid() {
    let t = Tiles::new(grid(3, 3, &[((1, 1), -1)], 1), 20);
    assert_eq!(get_ruleset_and_map_id(Point::new([-1000, -1000]), &t), (1, 15));
    assert_eq!(get_ruleset_and_map_id(Point::new([i32::MAX, i32::MAX]), &t), (1, 15));
    assert_eq!(get_ruleset_and_map_id(Point::new([i32::MIN, i32::MIN]), &t), (1, 15));
    assert_eq!(
        get_density_proportion(Point::new([-1000, -1000]), [0, 1], &t),
        (Fraction { num: 1, den: 1 }, [1, 1])
    );
    assert_eq!(
        get_density_proportion(Point::new([i32::MAX, i32::MAX]), [2, 3], &t),
        (Fraction { num: 1, den: 1 }, [3, 3])
    );
}

#[test]
fn negative_corner_selects_general_ruleset() {
    let t = Tiles::new(grid(1, 1, &[], -1), 1);
    assert_eq!(get_ruleset_and_map_id(Point::new([0, 0]), &t), (0, 15));
    assert_eq!(get_ruleset_and_map_id(Point::new([-1, -1]), &t), (0, 15));
    assert_eq!(get_ruleset_and_map_id(Point::new([-1, 0]), &t), (0, 15));
    assert_eq!(get_ruleset_and_map_id(Point::new([1, 0]), &t), (1, 15));
}

#[test]
fn nonnegative_corners_select_restricted_ruleset() {
    let t = Tiles::new(grid(1, 1, &[], 3), 1);
    assert_eq!(get_ruleset_and_map_id(Point::new([0, 0]), &t), (1, 14));
    assert_eq!(get_ruleset_and_map_id(Point::new([-1, 0]), &t), (1, 13));
    assert_eq!(get_ruleset_and_map_id(Point::new([-1, -1]), &t), (1, 11));
    assert_eq!(get_ruleset_and_map_id(Point::new([0, -1]), &t), (1, 7));
    let full = Tiles::new(grid(2, 2, &[], i8::MAX), 1);
    assert_eq!(get_ruleset_and_map_id(Point::new([0, 0]), &full), (1, 0));
}

#[test]
fn ring_point_vertices_of_mixed_cell() {
    let t = Tiles::new(grid(2, 1, &[((1, 0), -1)], 1), 10);
    let loc = Point::new([0, 0]);
    assert_eq!(ring_point_vertex(loc, 1, &t), v(10, 0, 2));
    assert_eq!(ring_point_vertex(loc, 3, &t), v(10, -10, 1));
    assert_eq!(ring_point_vertex(loc, 0, &t), v(0, 0, 1));
    assert_eq!(ring_point_vertex(loc, 8, &t), v(10, -10, 2));
    assert_eq!(ring_point_vertex(Point::new([1, 2]), 6, &t), v(10, -30, 1));
}

#[test]
fn mixed_cell_emits_general_triangles() {
    let t = Tiles::new(grid(2, 1, &[((1, 0), -1)], 1), 10);
    assert_eq!(get_ruleset_and_map_id(Point::new([0, 0]), &t), (0, 14));
    let (verts, coll) = marching_squares(&t);
    assert_eq!(verts.len() % 3, 0);
    assert_eq!(coll.len() % 3, 0);
    assert!(coll.len() < verts.len());
    let cell: Vec<Vertex> = [6, 4, 7, 4, 1, 7, 4, 2, 1]
        .iter()
        .map(|&p| ring_point_vertex(Point::new([0, 0]), p, &t))
        .collect();
    assert!(verts.windows(9).any(|w| w == cell.as_slice()));
    assert!(coll.windows(9).any(|w| w == cell.as_slice()));
}

fn first_vertices(t: &Tiles) -> Vec<Vertex> {
    marching_squares(t).0
}

#[test]
fn uniform_positive_field_emits_only_outer_ring() {
    let t = Tiles::new(grid(5, 5, &[], 3), 1);
    for y in 0..4 {
        for x in 0..4 {
            assert_eq!(get_ruleset_and_map_id(Point::new([x, y]), &t), (1, 0));
        }
    }
    let (verts, coll) = marching_squares(&t);
    assert_eq!(verts.len(), 28 * 12);
    assert_eq!(coll.len(), 24 * 12);
    assert_eq!(&verts[0..3], &[v(-2, 2, 1), v(-2, 1, 1), v(-3, 3, 2)]);
}

#[test]
fn doubling_spacing_doubles_coordinates() {
    let a = Tiles::new(grid(4, 3, &[((1, 1), -2), ((2, 1), -5), ((0, 2), 0)], 4), 7);
    let b = Tiles::new(grid(4, 3, &[((1, 1), -2), ((2, 1), -5), ((0, 2), 0)], 4), 14);
    let (va, ca) = marching_squares(&a);
    let (vb, cb) = marching_squares(&b);
    assert_eq!(va.len(), vb.len());
    assert_eq!(ca.len(), cb.len());
    for (p, q) in va.iter().zip(vb.iter()).chain(ca.iter().zip(cb.iter())) {
        assert_eq!(q.x, 2 * p.x);
        assert_eq!(q.y, 2 * p.y);
        assert_eq!(q.den, p.den);
    }
    for y in -2..4 {
        for x in -2..5 {
            let loc = Point::new([x, y]);
            assert_eq!(get_ruleset_and_map_id(loc, &a), get_ruleset_and_map_id(loc, &b));
        }
    }
    assert_eq!(first_vertices(&a)[0..3], [v(-14, 14, 1), v(-14, 7, 1), v(-21, 21, 2)]);
    assert_eq!(first_vertices(&b)[0..3], [v(-28, 28, 1), v(-28, 14, 1), v(-42, 42, 2)]);
}

#[test]
fn collision_triangles_appear_in_render_mesh_in_order() {
    let t = Tiles::new(
        grid(6, 5, &[((1, 1), -1), ((2, 1), -3), ((4, 3), -1), ((3, 3), 0), ((5, 0), -2)], 2),
        3,
    );
    let (verts, coll) = marching_squares(&t);
    assert_eq!(verts.len() % 3, 0);
    assert_eq!(coll.len() % 3, 0);
    assert!(!coll.is_empty());
    let mut next = 0;
    for tri in coll.chunks(3) {
        let mut found = false;
        while next * 3 < verts.len() {
            let cand = &verts[next * 3..next * 3 + 3];
            next += 1;
            if cand == tri {
                found = true;
                break;
            }
        }
        assert!(found);
    }
}

#[test]
fn empty_grid_is_all_solid_margin() {
    let t = Tiles::new(grid(0, 0, &[], 0), 1);
    let (verts, coll) = marching_squares(&t);
    assert_eq!(verts.len(), 9 * 12);
    assert!(coll.is_empty());
}
