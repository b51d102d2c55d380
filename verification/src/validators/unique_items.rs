use crate::error;
use crate::json::Json;
use crate::scope::Scope;
use crate::validators::{has_duplicate, leaf_outcome, ValidationState, ValidatorModel};
use vstd::prelude::*;

verus! {

broadcast use vstd::seq::group_seq_axioms;

/// An array must not hold the same value twice.
#[derive(Debug)]
pub struct UniqueItems;

impl View for UniqueItems {
    type V = ValidatorModel;

    open spec fn view(&self) -> ValidatorModel {
        ValidatorModel::UniqueItems
    }
}

impl UniqueItems {
    /// Reports one `unique_items` error where two elements of the array `val`
    /// are the same value, and nothing where no two are. Of a value that is no
    /// array it reports nothing.
    pub fn validate(&self, val: &Json, path: &str, _scope: &Scope) -> (r: ValidationState)
        ensures
            r@ == leaf_outcome(self@, val@, path@),
    {
        let array = match val.as_array() {
            Some(array) => array,
            None => {
                return ValidationState::new();
            },
        };
        let ghost a = val@.elements();
        let mut i: usize = 0;
        while i < array.len()
            invariant
                i <= array.len(),
                a == val@.elements(),
                val@ is Array,
                a.len() == array.len(),
                forall|k: int| 0 <= k < array.len() ==> a[k] == array[k]@,
                forall|p: int, q: int|
                    0 <= p < q < i ==> !crate::json::json_equal(#[trigger] a[p], #[trigger] a[q]),
            decreases array.len() - i,
        {
            let mut j: usize = 0;
            while j < i
                invariant
                    j <= i < array.len(),
                    a == val@.elements(),
                    val@ is Array,
                    a.len() == array.len(),
                    forall|k: int| 0 <= k < array.len() ==> a[k] == array[k]@,
                    forall|p: int|
                        0 <= p < j ==> !crate::json::json_equal(#[trigger] a[p], a[i as int]),
                decreases i - j,
            {
                if array[j].same(&array[i]) {
                    assert(crate::json::json_equal(a[j as int], a[i as int]));
                    assert(has_duplicate(a));
                    return ValidationState::of_error(
                        error::ValidationError::UniqueItems(
                            error::UniqueItems { path: path.to_string() },
                        ),
                    );
                }
                j = j + 1;
            }
            i = i + 1;
        }
        assert(!has_duplicate(a));
        ValidationState::new()
    }
}

} // verus!
