use crate::json::Json;
use crate::scope::Scope;
use crate::uri::Uri;
use crate::validators::{follow_in, validate_one, ValidationState, ValidatorModel};
use vstd::prelude::*;

verus! {

/// The value must match the schema that `url` stands for.
#[derive(Debug)]
pub struct Ref {
    pub url: Uri,
}

impl View for Ref {
    type V = ValidatorModel;

    open spec fn view(&self) -> ValidatorModel {
        ValidatorModel::Ref { url: self.url@ }
    }
}

impl Ref {
    /// Reports what the schema at `url` finds of `val`, as that schema
    /// reports it. Where the scope has no such schema, it reports no error
    /// and `url` as missing; where it has one and `depth` is used up, it
    /// reports that alone.
    pub fn validate(&self, val: &Json, path: &str, scope: &Scope, depth: usize) -> (r:
        ValidationState)
        ensures
            r@ == validate_one(scope@, self@, val@, path@, depth as nat),
        decreases depth, 1nat, 0nat,
    {
        match follow_in(scope, &self.url, val, path, depth) {
            Some(state) => state,
            None => ValidationState::of_missing(self.url.clone()),
        }
    }
}

} // verus!
