//! Solver core for the 5x5 toggle-grid puzzle: pressing a cell flips the cell
//! itself and its orthogonal neighbours.  A board state is a 25-bit pattern
//! (bit `i` is cell `(i / 5, i % 5)`, row-major, bit 0 top-left).  The library
//! provides the linear forward transform from press-patterns to lit-patterns,
//! the 8-element dihedral symmetry group acting on patterns, a text codec for
//! boards, and the exhaustive minimum-weight solution cache with its on-disk
//! layouts.

use vstd::prelude::*;

mod cache;
mod codec;
mod symmetry;
mod transform;

pub use cache::SolveCache;
pub use cache::SolveError;
pub use cache::get_entry;
pub use cache::solve;
pub use codec::ParseError;
pub use codec::output;
pub use codec::parse;
pub use symmetry::apply_transform;
pub use symmetry::apply_transform_inverse;
pub use symmetry::canonicalize;
pub use symmetry::reflect;
pub use symmetry::rev5;
pub use symmetry::rotate;
pub use symmetry::spread;

pub use transform::apply_presses;
pub use transform::press_weight;
pub use transform::blit;
pub use transform::generate_map;

verus! {

} // verus!
