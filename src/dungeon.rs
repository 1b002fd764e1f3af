use vstd::prelude::*;

use crate::point::Point;

verus! {

/// One of the four axis directions on the grid.
#[derive(Clone, Copy, Debug, PartialEq, Eq, Structural)]
pub enum Direction {
    Up,
    Down,
    Left,
    Right,
}

/// The unit grid step of a direction.
pub open spec fn step_of(d: Direction) -> (int, int) {
    match d {
        Direction::Up => (0, 1),
        Direction::Down => (0, -1),
        Direction::Left => (-1, 0),
        Direction::Right => (1, 0),
    }
}

impl Direction {
    /// The unit grid step of this direction.
    pub fn offset(self) -> (r: Point<i32, 2>)
        ensures
            (r.v[0] as int, r.v[1] as int) == step_of(self),
    {
        match self {
            Direction::Up => Point::new([0, 1]),
            Direction::Down => Point::new([0, -1]),
            Direction::Left => Point::new([-1, 0]),
            Direction::Right => Point::new([1, 0]),
        }
    }

    /// The direction whose unit step is `p`, which must be a unit axis step.
    pub fn from_offset(p: Point<i32, 2>) -> (r: Direction)
        requires
            exists|d: Direction| step_of(d) == (p.v[0] as int, p.v[1] as int),
        ensures
            step_of(r) == (p.v[0] as int, p.v[1] as int),
    {
        let x = p.v[0];
        let y = p.v[1];
        if x == 0 && y == 1 {
            Direction::Up
        } else if x == 0 && y == -1 {
            Direction::Down
        } else if x == -1 {
            Direction::Left
        } else {
            Direction::Right
        }
    }
}

} // verus!
