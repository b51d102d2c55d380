use crate::error;
use crate::json::{Json, Number};
use crate::scope::Scope;
use crate::validators::{leaf_outcome, ValidationState, ValidatorModel};
use vstd::prelude::*;

verus! {

/// How far a whole number is from zero.
pub open spec fn magnitude(v: int) -> int {
    if v >= 0 {
        v
    } else {
        -v
    }
}

/// Whether `value` and `number` are whole numbers, `number` above zero, and
/// `value` is no multiple of `number`. Of a number that is not whole nothing
/// is said here.
pub open spec fn is_no_multiple(value: Number, number: Number) -> bool {
    match (value.integer, number.integer) {
        (Some(v), Some(d)) => d > 0 && magnitude(v as int) % (d as int) != 0,
        _ => false,
    }
}

/// A whole number must be a multiple of the whole number `number`.
#[derive(Debug)]
pub struct MultipleOf {
    pub number: Number,
}

impl View for MultipleOf {
    type V = ValidatorModel;

    open spec fn view(&self) -> ValidatorModel {
        ValidatorModel::MultipleOf { number: self.number }
    }
}

impl MultipleOf {
    /// Reports one `multiple_of` error where `val` and `number` are whole
    /// numbers and `val` is no multiple of `number`. Of a value that is no
    /// number it reports nothing, and nothing either where one of the two is
    /// no whole number.
    pub fn validate(&self, val: &Json, path: &str, _scope: &Scope) -> (r: ValidationState)
        ensures
            r@ == leaf_outcome(self@, val@, path@),
    {
        let value = match val.as_number() {
            Some(value) => value,
            None => {
                return ValidationState::new();
            },
        };
        let fails = match (value.integer, self.number.integer) {
            (Some(v), Some(d)) => {
                if d > 0 {
                    let m: u128 = if v >= 0 {
                        v as u128
                    } else {
                        (-(v + 1)) as u128 + 1
                    };
                    assert(m == magnitude(v as int));
                    m % (d as u128) != 0
                } else {
                    false
                }
            },
            _ => false,
        };
        if fails {
            ValidationState::of_error(
                error::ValidationError::MultipleOf(error::MultipleOf { path: path.to_string() }),
            )
        } else {
            ValidationState::new()
        }
    }
}

} // verus!
