use crate::error;
use crate::json::Json;
use crate::scope::Scope;
use crate::validators::{leaf_outcome, ValidationState, ValidatorModel};
use vstd::prelude::*;

verus! {

/// An object must have `length` members at most.
#[derive(Debug)]
pub struct MaxProperties {
    pub length: u64,
}

/// An object must have `length` members at least.
#[derive(Debug)]
pub struct MinProperties {
    pub length: u64,
}

impl View for MaxProperties {
    type V = ValidatorModel;

    open spec fn view(&self) -> ValidatorModel {
        ValidatorModel::MaxProperties { length: self.length }
    }
}

impl View for MinProperties {
    type V = ValidatorModel;

    open spec fn view(&self) -> ValidatorModel {
        ValidatorModel::MinProperties { length: self.length }
    }
}

impl MaxProperties {
    /// Reports one `max_properties` error where the object `val` has more than
    /// `length` members. Of a value that is no object it reports nothing.
    pub fn validate(&self, val: &Json, path: &str, _scope: &Scope) -> (r: ValidationState)
        ensures
            r@ == leaf_outcome(self@, val@, path@),
    {
        let object = match val.as_object() {
            Some(object) => object,
            None => {
                return ValidationState::new();
            },
        };
        if (object.len() as u64) <= self.length {
            ValidationState::new()
        } else {
            ValidationState::of_error(
                error::ValidationError::MaxProperties(
                    error::MaxProperties { path: path.to_string() },
                ),
            )
        }
    }
}

impl MinProperties {
    /// Reports one `min_properties` error where the object `val` has fewer
    /// than `length` members. Of a value that is no object it reports nothing.
    pub fn validate(&self, val: &Json, path: &str, _scope: &Scope) -> (r: ValidationState)
        ensures
            r@ == leaf_outcome(self@, val@, path@),
    {
        let object = match val.as_object() {
            Some(object) => object,
            None => {
                return ValidationState::new();
            },
        };
        if (object.len() as u64) >= self.length {
            ValidationState::new()
        } else {
            ValidationState::of_error(
                error::ValidationError::MinProperties(
                    error::MinProperties { path: path.to_string() },
                ),
            )
        }
    }
}

} // verus!
