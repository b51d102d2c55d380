use crate::error;
use crate::json::{Json, Number};
use crate::scope::Scope;
use crate::validators::{leaf_outcome, ValidationState, ValidatorModel};
use vstd::prelude::*;

verus! {

/// A number must not be above `number`.
#[derive(Debug)]
pub struct Maximum {
    pub number: Number,
}

/// A number must be below `number`.
#[derive(Debug)]
pub struct ExclusiveMaximum {
    pub number: Number,
}

/// A number must not be below `number`.
#[derive(Debug)]
pub struct Minimum {
    pub number: Number,
}

/// A number must be above `number`.
#[derive(Debug)]
pub struct ExclusiveMinimum {
    pub number: Number,
}

impl View for Maximum {
    type V = ValidatorModel;

    open spec fn view(&self) -> ValidatorModel {
        ValidatorModel::Maximum { number: self.number }
    }
}

impl View for ExclusiveMaximum {
    type V = ValidatorModel;

    open spec fn view(&self) -> ValidatorModel {
        ValidatorModel::ExclusiveMaximum { number: self.number }
    }
}

impl View for Minimum {
    type V = ValidatorModel;

    open spec fn view(&self) -> ValidatorModel {
        ValidatorModel::Minimum { number: self.number }
    }
}

impl View for ExclusiveMinimum {
    type V = ValidatorModel;

    open spec fn view(&self) -> ValidatorModel {
        ValidatorModel::ExclusiveMinimum { number: self.number }
    }
}

impl Maximum {
    /// Reports one `maximum` error where the number `val` is above `number`.
    /// Of a value that is no number it reports nothing.
    pub fn validate(&self, val: &Json, path: &str, _scope: &Scope) -> (r: ValidationState)
        ensures
            r@ == leaf_outcome(self@, val@, path@),
    {
        let number = match val.as_number() {
            Some(number) => number,
            None => {
                return ValidationState::new();
            },
        };
        if number.order <= self.number.order {
            ValidationState::new()
        } else {
            ValidationState::of_error(
                error::ValidationError::Maximum(error::Maximum { path: path.to_string() }),
            )
        }
    }
}

impl ExclusiveMaximum {
    /// Reports one `maximum` error where the number `val` is not below
    /// `number`. Of a value that is no number it reports nothing.
    pub fn validate(&self, val: &Json, path: &str, _scope: &Scope) -> (r: ValidationState)
        ensures
            r@ == leaf_outcome(self@, val@, path@),
    {
        let number = match val.as_number() {
            Some(number) => number,
            None => {
                return ValidationState::new();
            },
        };
        if number.order < self.number.order {
            ValidationState::new()
        } else {
            ValidationState::of_error(
                error::ValidationError::Maximum(error::Maximum { path: path.to_string() }),
            )
        }
    }
}

impl Minimum {
    /// Reports one `minimum` error where the number `val` is below `number`.
    /// Of a value that is no number it reports nothing.
    pub fn validate(&self, val: &Json, path: &str, _scope: &Scope) -> (r: ValidationState)
        ensures
            r@ == leaf_outcome(self@, val@, path@),
    {
        let number = match val.as_number() {
            Some(number) => number,
            None => {
                return ValidationState::new();
            },
        };
        if number.order >= self.number.order {
            ValidationState::new()
        } else {
            ValidationState::of_error(
                error::ValidationError::Minimum(error::Minimum { path: path.to_string() }),
            )
        }
    }
}

impl ExclusiveMinimum {
    /// Reports one `minimum` error where the number `val` is not above
    /// `number`. Of a value that is no number it reports nothing.
    pub fn validate(&self, val: &Json, path: &str, _scope: &Scope) -> (r: ValidationState)
        ensures
            r@ == leaf_outcome(self@, val@, path@),
    {
        let number = match val.as_number() {
            Some(number) => number,
            None => {
                return ValidationState::new();
            },
        };
        if number.order > self.number.order {
            ValidationState::new()
        } else {
            ValidationState::of_error(
                error::ValidationError::Minimum(error::Minimum { path: path.to_string() }),
            )
        }
    }
}

} // verus!
