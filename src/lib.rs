//! A dictionary-of-keys sparse matrix over numeric elements, and a
//! row-major Cartesian product of two finite sequences.

use vstd::prelude::*;

pub mod itertools;
pub mod sparse;

verus! {

} // verus!
