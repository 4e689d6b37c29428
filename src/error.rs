use vstd::prelude::*;

verus! {

/// The input and output sequences handed to a batch kernel differ in length.
#[derive(Debug, Clone, Copy, PartialEq, Eq, Structural)]
pub struct DimensionMismatch;

/// The length rule that every batch kernel applies before it computes
/// anything: an input of `n_items` items pairs only with `n_out` slots when
/// the two are equal.
pub fn check_dimensions(n_items: usize, n_out: usize) -> (r: Result<(), DimensionMismatch>)
    ensures
        r is Err <==> n_items != n_out,
{
    if n_items != n_out {
        Err(DimensionMismatch)
    } else {
        Ok(())
    }
}

} // verus!
