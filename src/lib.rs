//! Polygonisation of a signed density grid by a modified marching squares,
//! producing a render mesh and the boundary subset of it that a collider needs.
pub mod matrix;
pub mod point;
pub mod tiles;
pub mod tables;
pub mod marching_squares;
pub mod lemmas;
pub mod dungeon;
