use crate::error;
use crate::json::Json;
use crate::scope::Scope;
use crate::validators::{leaf_outcome, ValidationState, ValidatorModel};
use vstd::prelude::*;

verus! {

/// Whether `chrono::DateTime::parse_from_rfc3339` reads `input` as a date and
/// time.
pub uninterp spec fn rfc3339_accepted(input: Seq<char>) -> bool;

/// Calls `chrono::DateTime::parse_from_rfc3339` and tells whether it read a
/// date and time.
#[verifier::external_body]
fn parses_as_rfc3339(input: &str) -> (r: bool)
    ensures
        r == rfc3339_accepted(input@),
{
    chrono::DateTime::parse_from_rfc3339(input).is_ok()
}

/// A string must be a date and time as RFC 3339 writes them.
#[derive(Debug)]
pub struct DateTime;

impl View for DateTime {
    type V = ValidatorModel;

    open spec fn view(&self) -> ValidatorModel {
        ValidatorModel::DateTime
    }
}

impl DateTime {
    /// Reports one `format` error where the string `val` is no date and time.
    /// Of a value that is no string it reports nothing.
    pub fn validate(&self, val: &Json, path: &str, _scope: &Scope) -> (r: ValidationState)
        ensures
            r@ == leaf_outcome(self@, val@, path@),
    {
        let string = match val.as_str() {
            Some(string) => string,
            None => {
                return ValidationState::new();
            },
        };
        if parses_as_rfc3339(string) {
            ValidationState::new()
        } else {
            ValidationState::of_error(
                error::ValidationError::Format(
                    error::Format {
                        path: path.to_string(),
                        detail: "Malformed date time".to_string(),
                    },
                ),
            )
        }
    }
}

} // verus!
