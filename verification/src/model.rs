//! Mathematical models shared by the contracts.
use vstd::prelude::*;

verus! {

/// A result by the models of what it holds.
pub open spec fn result_view<T: DeepView, E: DeepView>(r: Result<T, E>) -> Result<T::V, E::V> {
    match r {
        Ok(value) => Ok(value.deep_view()),
        Err(error) => Err(error.deep_view()),
    }
}

} // verus!
