use crate::error;
use crate::json::Json;
use crate::scope::Scope;
use crate::validators::{leaf_outcome, ValidationState, ValidatorModel};
use vstd::prelude::*;

verus! {

/// A string must have `length` bytes at most.
#[derive(Debug)]
pub struct MaxLength {
    pub length: u64,
}

/// A string must have `length` bytes at least.
#[derive(Debug)]
pub struct MinLength {
    pub length: u64,
}

impl View for MaxLength {
    type V = ValidatorModel;

    open spec fn view(&self) -> ValidatorModel {
        ValidatorModel::MaxLength { length: self.length }
    }
}

impl View for MinLength {
    type V = ValidatorModel;

    open spec fn view(&self) -> ValidatorModel {
        ValidatorModel::MinLength { length: self.length }
    }
}

impl MaxLength {
    /// Reports one `max_length` error where the string `val` has more than
    /// `length` bytes. Of a value that is no string it reports nothing.
    pub fn validate(&self, val: &Json, path: &str, _scope: &Scope) -> (r: ValidationState)
        ensures
            r@ == leaf_outcome(self@, val@, path@),
    {
        let string = match val.as_str() {
            Some(string) => string,
            None => {
                return ValidationState::new();
            },
        };
        if (string.as_bytes().len() as u64) <= self.length {
            ValidationState::new()
        } else {
            ValidationState::of_error(
                error::ValidationError::MaxLength(error::MaxLength { path: path.to_string() }),
            )
        }
    }
}

impl MinLength {
    /// Reports one `min_length` error where the string `val` has fewer than
    /// `length` bytes. Of a value that is no string it reports nothing.
    pub fn validate(&self, val: &Json, path: &str, _scope: &Scope) -> (r: ValidationState)
        ensures
            r@ == leaf_outcome(self@, val@, path@),
    {
        let string = match val.as_str() {
            Some(string) => string,
            None => {
                return ValidationState::new();
            },
        };
        if (string.as_bytes().len() as u64) >= self.length {
            ValidationState::new()
        } else {
            ValidationState::of_error(
                error::ValidationError::MinLength(error::MinLength { path: path.to_string() }),
            )
        }
    }
}

} // verus!
