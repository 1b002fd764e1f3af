use terrain_mesh::dungeon::Direction;
use terrain_mesh::matrix::Matrix;
use terrain_mesh::point::Point;
use terrain_mesh::tiles::{Tiles, DEFAULT_TILE_DENSITY};

#[test]
fn matrix_new_fills_with_default() {
    let m: Matrix<i8, 2> = Matrix::new([3, 2]);
    assert_eq!(m.dim(), [3, 2]);
    for y in 0..2 {
        for x in 0..3 {
            assert_eq!(m.get([x, y]), 0);
        }
    }
}

#[test]
fn matrix_set_then_get() {
    let mut m: Matrix<i8, 2> = Matrix::new([3, 2]);
    m.set([1, 0], 5);
    m.set([0, 1], 9);
    m.set([2, 1], -7);
    assert_eq!(m.get([1, 0]), 5);
    assert_eq!(m.get([0, 1]), 9);
    assert_eq!(m.get([2, 1]), -7);
    assert_eq!(m.get([0, 0]), 0);
    assert_eq!(m.get([1, 1]), 0);
    assert_eq!(m.dim(), [3, 2]);
}

#[test]
fn matrix_three_axes_keeps_cells_apart() {
    let mut m: Matrix<u32, 3> = Matrix::new([2, 3, 4]);
    for z in 0..4 {
        for y in 0..3 {
            for x in 0..2 {
                m.set([x, y, z], (x + 10 * y + 100 * z) as u32);
            }
        }
    }
    for z in 0..4 {
        for y in 0..3 {
            for x in 0..2 {
                assert_eq!(m.get([x, y, z]), (x + 10 * y + 100 * z) as u32);
            }
        }
    }
}

#[test]
fn matrix_empty_axis() {
    let m: Matrix<i8, 2> = Matrix::new([0, 4]);
    assert_eq!(m.dim(), [0, 4]);
}

fn filled(w: usize, h: usize, d: i8) -> Matrix<i8, 2> {
    let mut m = Matrix::new([w, h]);
    for y in 0..h {
        for x in 0..w {
            m.set([x, y], d);
        }
    }
    m
}

#[test]
fn tiles_default_outside_grid() {
    let t = Tiles::new(filled(2, 2, 5), 20);
    assert_eq!(t.get(Point::new([0, 0])), 5);
    assert_eq!(t.get(Point::new([1, 1])), 5);
    assert_eq!(t.get(Point::new([-1, 0])), DEFAULT_TILE_DENSITY);
    assert_eq!(t.get(Point::new([2, 0])), 0);
    assert_eq!(t.get(Point::new([0, 2])), 0);
    assert_eq!(t.get(Point::new([-1000, -1000])), 0);
    assert_eq!(t.get(Point::new([i32::MAX, i32::MIN])), 0);
    assert_eq!(t.dimension(), [2, 2]);
    assert_eq!(t.dist_between_nodes(), 20);
}

#[test]
fn direction_offsets_round_trip() {
    let all = [Direction::Up, Direction::Down, Direction::Left, Direction::Right];
    let steps = [[0, 1], [0, -1], [-1, 0], [1, 0]];
    for i in 0..4 {
        assert_eq!(all[i].offset().v, steps[i]);
        assert_eq!(Direction::from_offset(Point::new(steps[i])), all[i]);
        assert_eq!(Direction::from_offset(all[i].offset()), all[i]);
    }
}

#[test]
fn tiles_unset_node_reads_default() {
    let mut m: Matrix<i8, 2> = Matrix::new([2, 2]);
    m.set([1, 0], -5);
    let t = Tiles::new(m, 1);
    assert_eq!(t.get(Point::new([1, 0])), -5);
    assert_eq!(t.get(Point::new([0, 0])), 0);
    assert_eq!(t.get(Point::new([0, 1])), 0);
    assert_eq!(t.get(Point::new([2, 0])), 0);
    assert_eq!(t.get(Point::new([-1, 0])), 0);
    assert_eq!(t.get(Point::new([0, 2])), 0);
    assert_eq!(t.get(Point::new([-1000, -1000])), 0);
}
