use crate::error;
use crate::json::Json;
use crate::scope::Scope;
use crate::uri::{uri_views, Uri};
use crate::validators::{
    all_missing, any_valid, contains_outcome, element_path_of, element_states, validate_one,
    ValidationState, ValidatorModel,
};
use vstd::prelude::*;

verus! {

broadcast use vstd::seq::group_seq_axioms;

/// An element of an array must match the schema that `url` stands for.
#[derive(Debug)]
pub struct Contains {
    pub url: Uri,
}

impl View for Contains {
    type V = ValidatorModel;

    open spec fn view(&self) -> ValidatorModel {
        ValidatorModel::Contains { url: self.url@ }
    }
}

impl Contains {
    /// Reports one `contains` error where the schema at `url` finds a
    /// violation in every element of the array `val`. Where the scope has no
    /// such schema, it reports no error and `url` as missing; where it has
    /// one and `depth` is used up, it reports that alone. Of a value that is
    /// no array it reports nothing.
    pub fn validate(&self, val: &Json, path: &str, scope: &Scope, depth: usize) -> (r:
        ValidationState)
        ensures
            r@ == validate_one(scope@, self@, val@, path@, depth as nat),
        decreases depth, 1nat, 0nat,
    {
        let array = match val.as_array() {
            Some(array) => array,
            None => {
                return ValidationState::new();
            },
        };
        let schema = match scope.resolve(&self.url) {
            Some(schema) => schema,
            None => {
                return ValidationState::of_missing(self.url.clone());
            },
        };
        if depth == 0 {
            return ValidationState::ran_out();
        }
        let ghost a = val@.elements();
        let ghost node = schema.node();
        let mut any_matched = false;
        let mut missing: Vec<Uri> = Vec::new();
        let mut exhausted = false;
        let mut i: usize = 0;
        while i < array.len()
            invariant
                i <= array.len(),
                depth > 0,
                a == val@.elements(),
                a.len() == array.len(),
                forall|k: int| 0 <= k < array.len() ==> a[k] == array[k]@,
                schema.node() == node,
                schema.scope_model() == scope@,
                any_matched == any_valid(
                    element_states(scope@, node, a, i as nat, path@, (depth - 1) as nat),
                ),
                uri_views(missing@) == all_missing(
                    element_states(scope@, node, a, i as nat, path@, (depth - 1) as nat),
                ),
                exhausted == crate::validators::any_exhausted(
                    element_states(scope@, node, a, i as nat, path@, (depth - 1) as nat),
                ),
            decreases array.len() - i,
        {
            let ghost before = element_states(scope@, node, a, i as nat, path@, (depth - 1) as nat);
            let ghost after = element_states(
                scope@,
                node,
                a,
                (i + 1) as nat,
                path@,
                (depth - 1) as nat,
            );
            let item_path = element_path_of(path, i);
            let mut state = schema.validate_within(&array[i], item_path.as_str(), depth - 1);
            proof {
                crate::validators::lemma_element_states_len(
                    scope@,
                    node,
                    a,
                    i as nat,
                    path@,
                    (depth - 1) as nat,
                );
                assert(after == before.push(state@));
                assert(after.drop_last() == before);
                if any_valid(before) {
                    let k = choose|k: int| 0 <= k < before.len() && (#[trigger] before[k]).is_valid();
                    assert(after[k].is_valid());
                }
                if state@.is_valid() {
                    assert(after[i as int].is_valid());
                }
                if any_valid(after) {
                    let k = choose|k: int| 0 <= k < after.len() && (#[trigger] after[k]).is_valid();
                    if k < i {
                        assert(before[k].is_valid());
                    }
                }
            }
            if state.is_valid() {
                any_matched = true;
            }
            exhausted = exhausted || state.exhausted;
            let ghost old_missing = uri_views(missing@);
            let ghost added = state@.missing;
            missing.append(&mut state.missing);
            assert(uri_views(missing@) == old_missing + added);
            i = i + 1;
        }
        let mut errors: Vec<error::ValidationError> = Vec::new();
        if !any_matched {
            errors.push(error::ValidationError::Contains(error::Contains { path: path.to_string() }));
        }
        let r = ValidationState { errors, missing, exhausted };
        assert(r@.errors =~= contains_outcome(
            element_states(scope@, node, a, a.len(), path@, (depth - 1) as nat),
            path@,
        ).errors);
        r
    }
}

} // verus!
