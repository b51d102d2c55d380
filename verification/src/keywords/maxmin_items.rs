use crate::json::{Json, JsonValue};
use crate::keywords::{KeywordResult, KeywordResultModel};
use crate::schema::WalkContext;
use crate::schema::WalkModel;
use crate::validators;
use crate::validators::{Validator, ValidatorModel};
use vstd::prelude::*;

verus! {

/// The keyword `maxItems`: an array has so many elements at most.
#[derive(Debug)]
pub struct MaxItems;

impl MaxItems {
    /// The check that the keyword stands for: none where `def` has no such
    /// member, and an error where the member is no whole number from 0 on.
    pub open spec fn compile_spec(def: JsonValue, ctx: WalkModel) -> KeywordResultModel {
        match def.get("maxItems"@) {
            None => Ok(None),
            Some(JsonValue::Number(n)) => match n.count_spec() {
                Some(length) => Ok(Some(ValidatorModel::MaxItems { length })),
                None => Err(ctx.malformed("The value MUST be a positive integer or zero"@)),
            },
            Some(_) => Err(ctx.malformed("The value MUST be a positive integer or zero"@)),
        }
    }

    /// Reads the keyword out of the node `def`, which stands at `ctx`.
    pub fn compile(&self, def: &Json, ctx: &WalkContext<'_>) -> (r: KeywordResult)
        ensures
            crate::keywords::result_view(r) == Self::compile_spec(def@, ctx@),
    {
        let length = match def.get("maxItems") {
            Some(length) => length,
            None => {
                return Ok(None);
            },
        };
        match length.as_u64() {
            Some(length) => Ok(
                Some(Validator::MaxItems(validators::maxmin_items::MaxItems { length })),
            ),
            None => Err(ctx.malformed("The value MUST be a positive integer or zero")),
        }
    }
}

/// The keyword `minItems`: an array has so many elements at least.
#[derive(Debug)]
pub struct MinItems;

impl MinItems {
    /// The check that the keyword stands for: none where `def` has no such
    /// member, and an error where the member is no whole number from 0 on.
    pub open spec fn compile_spec(def: JsonValue, ctx: WalkModel) -> KeywordResultModel {
        match def.get("minItems"@) {
            None => Ok(None),
            Some(JsonValue::Number(n)) => match n.count_spec() {
                Some(length) => Ok(Some(ValidatorModel::MinItems { length })),
                None => Err(ctx.malformed("The value MUST be a positive integer or zero"@)),
            },
            Some(_) => Err(ctx.malformed("The value MUST be a positive integer or zero"@)),
        }
    }

    /// Reads the keyword out of the node `def`, which stands at `ctx`.
    pub fn compile(&self, def: &Json, ctx: &WalkContext<'_>) -> (r: KeywordResult)
        ensures
            crate::keywords::result_view(r) == Self::compile_spec(def@, ctx@),
    {
        let length = match def.get("minItems") {
            Some(length) => length,
            None => {
                return Ok(None);
            },
        };
        match length.as_u64() {
            Some(length) => Ok(
                Some(Validator::MinItems(validators::maxmin_items::MinItems { length })),
            ),
            None => Err(ctx.malformed("The value MUST be a positive integer or zero")),
        }
    }
}

} // verus!
