use vstd::prelude::*;
use crate::constraint::SplineError;

verus! {

/// The row that elimination takes as pivot for `column`, given for each row
/// whether its entry in that column is nonzero: the first nonzero one at or
/// below the diagonal. The pivot row stays where it is when its own entry is
/// nonzero; otherwise it is swapped with the row returned. `Singular` when
/// every such entry is zero.
pub fn find_pivot(nonzero: &Vec<bool>, column: usize) -> (r: Result<usize, SplineError>)
    ensures
        match r {
            Ok(k) => column <= k < nonzero@.len() && nonzero@[k as int] && forall|j: int|
                column <= j < k ==> !nonzero@[j],
            Err(e) => e == SplineError::Singular && forall|j: int|
                column <= j < nonzero@.len() ==> !nonzero@[j],
        },
{
    let mut k: usize = column;
    while k < nonzero.len()
        invariant
            column <= k,
            forall|j: int| column <= j < k && j < nonzero@.len() ==> !nonzero@[j],
        decreases nonzero@.len() - k,
    {
        if nonzero[k] {
            return Ok(k);
        }
        k = k + 1;
    }
    Err(SplineError::Singular)
}

} // verus!
