use crate::error;
use crate::json::Json;
use crate::scope::Scope;
use crate::uri::Uri;
use crate::validators::{follow_in, not_outcome, validate_one, ValidationState, ValidatorModel};
use vstd::prelude::*;

verus! {

broadcast use vstd::seq::group_seq_axioms;

/// The value must not match the schema that `url` stands for.
#[derive(Debug)]
pub struct Not {
    pub url: Uri,
}

impl View for Not {
    type V = ValidatorModel;

    open spec fn view(&self) -> ValidatorModel {
        ValidatorModel::Not { url: self.url@ }
    }
}

/// What `not` reports, given what its schema found.
pub fn not_state(url: &Uri, found: Option<ValidationState>, path: &str) -> (r: ValidationState)
    ensures
        r@ == not_outcome(url@, crate::validators::option_state_view(found), path@),
{
    match found {
        Some(state) => {
            let mut out = if state.is_valid() {
                ValidationState::of_error(
                    error::ValidationError::Not(error::Not { path: path.to_string() }),
                )
            } else {
                ValidationState::new()
            };
            let ghost before = out@;
            let mut state = state;
            let ghost inner = state@;
            out.missing.append(&mut state.missing);
            out.exhausted = state.exhausted;
            assert(before.missing =~= Seq::empty());
            assert(out@.errors =~= before.errors);
            assert(out@.missing =~= inner.missing);
            out
        },
        None => ValidationState::of_missing(url.clone()),
    }
}

impl Not {
    /// Reports one `not` error where the schema at `url` finds no violation
    /// in `val`.
    pub fn validate(&self, val: &Json, path: &str, scope: &Scope, depth: usize) -> (r:
        ValidationState)
        ensures
            r@ == validate_one(scope@, self@, val@, path@, depth as nat),
        decreases depth, 1nat, 0nat,
    {
        let found = follow_in(scope, &self.url, val, path, depth);
        not_state(&self.url, found, path)
    }
}

} // verus!
