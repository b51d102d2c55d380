use crate::error;
use crate::json::Json;
use crate::scope::Scope;
use crate::text::views;
use crate::validators::{leaf_outcome, required_outcome, ValidationState, ValidatorModel};
use vstd::prelude::*;

verus! {

broadcast use vstd::seq::group_seq_axioms;

/// An object must have a member for each of `items`.
#[derive(Debug)]
pub struct Required {
    pub items: Vec<String>,
}

impl View for Required {
    type V = ValidatorModel;

    open spec fn view(&self) -> ValidatorModel {
        ValidatorModel::Required { items: views(self.items@) }
    }
}

impl Required {
    /// Reports each name of `items` that the object `val` has no member for,
    /// under the path of that member. Of a value that is no object it reports
    /// nothing.
    pub fn validate(&self, val: &Json, path: &str, _scope: &Scope) -> (r: ValidationState)
        ensures
            r@ == leaf_outcome(self@, val@, path@),
    {
        let mut state = ValidationState::new();
        if !val.is_object() {
            return state;
        }
        let mut i: usize = 0;
        while i < self.items.len()
            invariant
                i <= self.items.len(),
                state@ == required_outcome(views(self.items@).take(i as int), val@, path@),
            decreases self.items.len() - i,
        {
            proof {
                let done = views(self.items@).take(i + 1);
                assert(done.drop_last() == views(self.items@).take(i as int));
                assert(done.last() == self.items[i as int]@);
            }
            let key = &self.items[i];
            if val.get(key.as_str()).is_none() {
                let mut item_path = path.to_string();
                item_path.append("/");
                item_path.append(key.as_str());
                proof {
                    reveal_strlit("/");
                    assert(item_path@ == path@ + seq!['/'] + key@);
                }
                state.append(
                    ValidationState::of_error(
                        error::ValidationError::Required(error::Required { path: item_path }),
                    ),
                );
            } else {
                assert(state@.append(crate::validators::StateModel::empty()) == state@);
            }
            i = i + 1;
        }
        assert(views(self.items@).take(self.items.len() as int) == views(self.items@));
        state
    }
}

} // verus!
