use crate::error;
use crate::json::Json;
use crate::scope::Scope;
use crate::validators::{leaf_outcome, ValidationState, ValidatorModel};
use vstd::prelude::*;

verus! {

/// What `regex::Regex::is_match` gives for `text` with the regular expression
/// that `regex::Regex::new` makes of `pattern`; nothing where `pattern` is
/// refused.
pub uninterp spec fn regex_matched(pattern: Seq<char>, text: Seq<char>) -> Option<bool>;

/// Makes a regular expression of `pattern` with `regex::Regex::new` and asks
/// `regex::Regex::is_match` whether `text` matches it.
#[verifier::external_body]
pub(crate) fn regex_match(pattern: &str, text: &str) -> (r: Option<bool>)
    ensures
        r == regex_matched(pattern@, text@),
{
    match regex::Regex::new(pattern) {
        Ok(re) => Some(re.is_match(text)),
        Err(_) => None,
    }
}

/// A string must match the regular expression `pattern`.
#[derive(Debug)]
pub struct Pattern {
    pub pattern: String,
}

impl View for Pattern {
    type V = ValidatorModel;

    open spec fn view(&self) -> ValidatorModel {
        ValidatorModel::Pattern { pattern: self.pattern@ }
    }
}

impl Pattern {
    /// Reports one `pattern` error where the string `val` does not match the
    /// regular expression. Of a value that is no string it reports nothing.
    pub fn validate(&self, val: &Json, path: &str, _scope: &Scope) -> (r: ValidationState)
        ensures
            r@ == leaf_outcome(self@, val@, path@),
    {
        let string = match val.as_str() {
            Some(string) => string,
            None => {
                return ValidationState::new();
            },
        };
        match regex_match(self.pattern.as_str(), string) {
            Some(true) => ValidationState::new(),
            _ => ValidationState::of_error(
                error::ValidationError::Pattern(error::Pattern { path: path.to_string() }),
            ),
        }
    }
}

} // verus!
