use crate::error;
use crate::json::Json;
use crate::scope::Scope;
use crate::validators::{leaf_outcome, ValidationState, ValidatorModel};
use vstd::prelude::*;

verus! {

/// The value must be `item`.
#[derive(Debug)]
pub struct Const {
    pub item: Json,
}

impl View for Const {
    type V = ValidatorModel;

    open spec fn view(&self) -> ValidatorModel {
        ValidatorModel::Const { item: self.item@ }
    }
}

impl Const {
    /// Reports one `const` error where `val` is not `item`.
    pub fn validate(&self, val: &Json, path: &str, _scope: &Scope) -> (r: ValidationState)
        ensures
            r@ == leaf_outcome(self@, val@, path@),
    {
        if val.same(&self.item) {
            ValidationState::new()
        } else {
            ValidationState::of_error(
                error::ValidationError::Const(error::Const { path: path.to_string() }),
            )
        }
    }
}

} // verus!
