use vstd::prelude::*;

use crate::matrix::{in_bounds, Matrix};
use crate::point::Point;

verus! {

/// Density reported for every coordinate outside the grid.
pub const DEFAULT_TILE_DENSITY: i8 = 0;

/// A grid of signed densities together with the world distance between two
/// neighbouring nodes. Outside the grid every density is
/// `DEFAULT_TILE_DENSITY`, so the field is defined on all integer coordinates.
pub struct Tiles {
    densities: Matrix<i8, 2>,
    dist_between_nodes: u32,
}

impl Tiles {
    /// The stored densities.
    pub closed spec fn grid(&self) -> Matrix<i8, 2> {
        self.densities
    }

    /// World units per grid step.
    pub closed spec fn spacing(&self) -> u32 {
        self.dist_between_nodes
    }

    /// The density grid is well formed.
    pub open spec fn wf(&self) -> bool {
        self.grid().wf()
    }

    /// Number of nodes along the first axis.
    pub open spec fn width(&self) -> int {
        self.grid().dims()[0] as int
    }

    /// Number of nodes along the second axis.
    pub open spec fn height(&self) -> int {
        self.grid().dims()[1] as int
    }

    /// (x, y) is a node of the grid.
    pub open spec fn in_grid(&self, x: int, y: int) -> bool {
        0 <= x < self.width() && 0 <= y < self.height()
    }

    /// The density field over all of the integer plane.
    pub open spec fn density(&self, x: int, y: int) -> i8 {
        if self.in_grid(x, y) {
            self.grid().at(seq![x as usize, y as usize])
        } else {
            DEFAULT_TILE_DENSITY
        }
    }

    /// A field over `densities` with `dist_between_nodes` world units per step.
    pub fn new(densities: Matrix<i8, 2>, dist_between_nodes: u32) -> (r: Self)
        ensures
            r.grid() == densities,
            r.spacing() == dist_between_nodes,
    {
        Tiles { densities, dist_between_nodes }
    }

    /// The density at any coordinate given in a wider integer type.
    pub(crate) fn density_at(&self, x: i64, y: i64) -> (r: i8)
        requires
            self.wf(),
        ensures
            r == self.density(x as int, y as int),
    {
        let dim = self.densities.dim();
        if x < 0 || y < 0 {
            DEFAULT_TILE_DENSITY
        } else if (x as u64) < (dim[0] as u64) && (y as u64) < (dim[1] as u64) {
            let loc: [usize; 2] = [x as usize, y as usize];
            assert(loc@ =~= seq![x as usize, y as usize]);
            assert(in_bounds(self.grid().dims(), loc@));
            self.densities.get(loc)
        } else {
            DEFAULT_TILE_DENSITY
        }
    }

    /// The density at `loc`: the stored one inside the grid, the default
    /// outside it.
    pub fn get(&self, loc: Point<i32, 2>) -> (r: i8)
        requires
            self.wf(),
        ensures
            r == self.density(loc.v[0] as int, loc.v[1] as int),
    {
        self.density_at(loc.v[0] as i64, loc.v[1] as i64)
    }

    /// The extents of the grid.
    pub fn dimension(&self) -> (r: [usize; 2])
        ensures
            r@ == self.grid().dims(),
    {
        self.densities.dim()
    }

    /// World units per grid step.
    pub fn dist_between_nodes(&self) -> (r: u32)
        ensures
            r == self.spacing(),
    {
        self.dist_between_nodes
    }
}

} // verus!
