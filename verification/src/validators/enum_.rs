use crate::error;
use crate::json::Json;
use crate::scope::Scope;
use crate::validators::{json_models, leaf_outcome, ValidationState, ValidatorModel};
use vstd::prelude::*;

verus! {

broadcast use vstd::seq::group_seq_axioms;

/// The value must be one of `items`.
#[derive(Debug)]
pub struct Enum {
    pub items: Vec<Json>,
}

impl View for Enum {
    type V = ValidatorModel;

    open spec fn view(&self) -> ValidatorModel {
        ValidatorModel::Enum { values: json_models(self.items@) }
    }
}

impl Enum {
    /// Reports one `enum` error where `val` is none of `items`.
    pub fn validate(&self, val: &Json, path: &str, _scope: &Scope) -> (r: ValidationState)
        ensures
            r@ == leaf_outcome(self@, val@, path@),
    {
        let ghost models = json_models(self.items@);
        let mut i: usize = 0;
        while i < self.items.len()
            invariant
                i <= self.items.len(),
                models == json_models(self.items@),
                forall|j: int| 0 <= j < i ==> !crate::json::json_equal(val@, #[trigger] models[j]),
            decreases self.items.len() - i,
        {
            if val.same(&self.items[i]) {
                assert(crate::json::json_equal(val@, models[i as int]));
                assert(crate::validators::is_listed(models, val@));
                return ValidationState::new();
            }
            i = i + 1;
        }
        assert(!crate::validators::is_listed(models, val@));
        ValidationState::of_error(error::ValidationError::Enum(error::Enum { path: path.to_string() }))
    }
}

} // verus!
