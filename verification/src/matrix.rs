//! The mathematical reading of a matrix held as a vector of rows.

use vstd::prelude::*;

verus! {

/// The rows of `m`, each as the sequence of its cells.
pub open spec fn matrix_view(m: Vec<Vec<u32>>) -> Seq<Seq<u32>> {
    Seq::new(m@.len(), |i: int| m@[i]@)
}

/// A row of `width` cells that all hold zero.
pub open spec fn zero_row(width: nat) -> Seq<u32> {
    Seq::new(width, |i: int| 0u32)
}

} // verus!
