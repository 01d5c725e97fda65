//! Models of the standard types that carry values.

use vstd::prelude::*;

verus! {

/// A result, with both sides by their models.
pub open spec fn result_view<A: DeepView, B: DeepView>(r: Result<A, B>) -> Result<A::V, B::V> {
    match r {
        Ok(a) => Ok(a.deep_view()),
        Err(b) => Err(b.deep_view()),
    }
}

} // verus!
