use crate::json::{Json, JsonValue};
use crate::keywords::{KeywordResult, KeywordResultModel};
use crate::schema::WalkContext;
use crate::schema::WalkModel;
use crate::validators;
use crate::validators::{Validator, ValidatorModel};
use vstd::prelude::*;

verus! {

/// The keyword `maxProperties`: an object has so many members at most.
#[derive(Debug)]
pub struct MaxProperties;

impl MaxProperties {
    /// The check that the keyword stands for: none where `def` has no such
    /// member, and an error where the member is no whole number from 0 on.
    pub open spec fn compile_spec(def: JsonValue, ctx: WalkModel) -> KeywordResultModel {
        match def.get("maxProperties"@) {
            None => Ok(None),
            Some(JsonValue::Number(n)) => match n.count_spec() {
                Some(length) => Ok(Some(ValidatorModel::MaxProperties { length })),
                None => Err(ctx.malformed("The value MUST be a positive integer or zero"@)),
            },
            Some(_) => Err(ctx.malformed("The value MUST be a positive integer or zero"@)),
        }
    }

    /// Reads the keyword out of the node `def`, which stands at `ctx`.
    pub fn compile(&self, def: &Json, ctx: &WalkContext<'_>) -> (r: KeywordResult)
        ensures
            crate::keywords::result_view(r) == Self::compile_spec(def@, ctx@),
    {
        let length = match def.get("maxProperties") {
            Some(length) => length,
            None => {
                return Ok(None);
            },
        };
        match length.as_u64() {
            Some(length) => Ok(
                Some(Validator::MaxProperties(validators::maxmin_properties::MaxProperties { length })),
            ),
            None => Err(ctx.malformed("The value MUST be a positive integer or zero")),
        }
    }
}

/// The keyword `minProperties`: an object has so many members at least.
#[derive(Debug)]
pub struct MinProperties;

impl MinProperties {
    /// The check that the keyword stands for: none where `def` has no such
    /// member, and an error where the member is no whole number from 0 on.
    pub open spec fn compile_spec(def: JsonValue, ctx: WalkModel) -> KeywordResultModel {
        match def.get("minProperties"@) {
            None => Ok(None),
            Some(JsonValue::Number(n)) => match n.count_spec() {
                Some(length) => Ok(Some(ValidatorModel::MinProperties { length })),
                None => Err(ctx.malformed("The value MUST be a positive integer or zero"@)),
            },
            Some(_) => Err(ctx.malformed("The value MUST be a positive integer or zero"@)),
        }
    }

    /// Reads the keyword out of the node `def`, which stands at `ctx`.
    pub fn compile(&self, def: &Json, ctx: &WalkContext<'_>) -> (r: KeywordResult)
        ensures
            crate::keywords::result_view(r) == Self::compile_spec(def@, ctx@),
    {
        let length = match def.get("minProperties") {
            Some(length) => length,
            None => {
                return Ok(None);
            },
        };
        match length.as_u64() {
            Some(length) => Ok(
                Some(Validator::MinProperties(validators::maxmin_properties::MinProperties { length })),
            ),
            None => Err(ctx.malformed("The value MUST be a positive integer or zero")),
        }
    }
}

} // verus!
