use crate::json::{Json, JsonValue};
use crate::keywords::{KeywordResult, KeywordResultModel};
use crate::schema::WalkContext;
use crate::schema::WalkModel;
use crate::validators;
use crate::validators::{Validator, ValidatorModel};
use vstd::prelude::*;

verus! {

/// The keyword `maxLength`: a string has so many bytes at most.
#[derive(Debug)]
pub struct MaxLength;

impl MaxLength {
    /// The check that the keyword stands for: none where `def` has no such
    /// member, and an error where the member is no whole number from 0 on.
    pub open spec fn compile_spec(def: JsonValue, ctx: WalkModel) -> KeywordResultModel {
        match def.get("maxLength"@) {
            None => Ok(None),
            Some(JsonValue::Number(n)) => match n.count_spec() {
                Some(length) => Ok(Some(ValidatorModel::MaxLength { length })),
                None => Err(ctx.malformed("The value MUST be a positive integer or zero"@)),
            },
            Some(_) => Err(ctx.malformed("The value MUST be a positive integer or zero"@)),
        }
    }

    /// Reads the keyword out of the node `def`, which stands at `ctx`.
    pub fn compile(&self, def: &Json, ctx: &WalkContext<'_>) -> (r: KeywordResult)
        ensures
            crate::keywords::result_view(r) == Self::compile_spec(def@, ctx@),
    {
        let length = match def.get("maxLength") {
            Some(length) => length,
            None => {
                return Ok(None);
            },
        };
        match length.as_u64() {
            Some(length) => Ok(
                Some(Validator::MaxLength(validators::maxmin_length::MaxLength { length })),
            ),
            None => Err(ctx.malformed("The value MUST be a positive integer or zero")),
        }
    }
}

/// The keyword `minLength`: a string has so many bytes at least.
#[derive(Debug)]
pub struct MinLength;

impl MinLength {
    /// The check that the keyword stands for: none where `def` has no such
    /// member, and an error where the member is no whole number from 0 on.
    pub open spec fn compile_spec(def: JsonValue, ctx: WalkModel) -> KeywordResultModel {
        match def.get("minLength"@) {
            None => Ok(None),
            Some(JsonValue::Number(n)) => match n.count_spec() {
                Some(length) => Ok(Some(ValidatorModel::MinLength { length })),
                None => Err(ctx.malformed("The value MUST be a positive integer or zero"@)),
            },
            Some(_) => Err(ctx.malformed("The value MUST be a positive integer or zero"@)),
        }
    }

    /// Reads the keyword out of the node `def`, which stands at `ctx`.
    pub fn compile(&self, def: &Json, ctx: &WalkContext<'_>) -> (r: KeywordResult)
        ensures
            crate::keywords::result_view(r) == Self::compile_spec(def@, ctx@),
    {
        let length = match def.get("minLength") {
            Some(length) => length,
            None => {
                return Ok(None);
            },
        };
        match length.as_u64() {
            Some(length) => Ok(
                Some(Validator::MinLength(validators::maxmin_length::MinLength { length })),
            ),
            None => Err(ctx.malformed("The value MUST be a positive integer or zero")),
        }
    }
}

} // verus!
