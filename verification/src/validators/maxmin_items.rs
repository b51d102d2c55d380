use crate::error;
use crate::json::Json;
use crate::scope::Scope;
use crate::validators::{leaf_outcome, ValidationState, ValidatorModel};
use vstd::prelude::*;

verus! {

/// An array must have `length` elements at most.
#[derive(Debug)]
pub struct MaxItems {
    pub length: u64,
}

/// An array must have `length` elements at least.
#[derive(Debug)]
pub struct MinItems {
    pub length: u64,
}

impl View for MaxItems {
    type V = ValidatorModel;

    open spec fn view(&self) -> ValidatorModel {
        ValidatorModel::MaxItems { length: self.length }
    }
}

impl View for MinItems {
    type V = ValidatorModel;

    open spec fn view(&self) -> ValidatorModel {
        ValidatorModel::MinItems { length: self.length }
    }
}

impl MaxItems {
    /// Reports one `max_items` error where the array `val` has more than
    /// `length` elements. Of a value that is no array it reports nothing.
    pub fn validate(&self, val: &Json, path: &str, _scope: &Scope) -> (r: ValidationState)
        ensures
            r@ == leaf_outcome(self@, val@, path@),
    {
        let array = match val.as_array() {
            Some(array) => array,
            None => {
                return ValidationState::new();
            },
        };
        if (array.len() as u64) <= self.length {
            ValidationState::new()
        } else {
            ValidationState::of_error(
                error::ValidationError::MaxItems(error::MaxItems { path: path.to_string() }),
            )
        }
    }
}

impl MinItems {
    /// Reports one `min_items` error where the array `val` has fewer than
    /// `length` elements. Of a value that is no array it reports nothing.
    pub fn validate(&self, val: &Json, path: &str, _scope: &Scope) -> (r: ValidationState)
        ensures
            r@ == leaf_outcome(self@, val@, path@),
    {
        let array = match val.as_array() {
            Some(array) => array,
            None => {
                return ValidationState::new();
            },
        };
        if (array.len() as u64) >= self.length {
            ValidationState::new()
        } else {
            ValidationState::of_error(
                error::ValidationError::MinItems(error::MinItems { path: path.to_string() }),
            )
        }
    }
}

} // verus!
