use crate::json::{Json, JsonValue};
use crate::keywords::{KeywordResult, KeywordResultModel};
use crate::schema::WalkContext;
use crate::schema::WalkModel;
use crate::validators;
use crate::validators::{Validator, ValidatorModel};
use vstd::prelude::*;

verus! {

/// The keyword `maximum`: a number is not above the bound.
#[derive(Debug)]
pub struct Maximum;

impl Maximum {
    /// The check that the keyword stands for: none where `def` has no such
    /// member, and an error where the member is no number.
    pub open spec fn compile_spec(def: JsonValue, ctx: WalkModel) -> KeywordResultModel {
        match def.get("maximum"@) {
            None => Ok(None),
            Some(JsonValue::Number(number)) => Ok(Some(ValidatorModel::Maximum { number })),
            Some(_) => Err(ctx.malformed("The value MUST be a number"@)),
        }
    }

    /// Reads the keyword out of the node `def`, which stands at `ctx`.
    pub fn compile(&self, def: &Json, ctx: &WalkContext<'_>) -> (r: KeywordResult)
        ensures
            crate::keywords::result_view(r) == Self::compile_spec(def@, ctx@),
    {
        let number = match def.get("maximum") {
            Some(number) => number,
            None => {
                return Ok(None);
            },
        };
        match number.as_number() {
            Some(number) => Ok(Some(Validator::Maximum(validators::maxmin::Maximum { number }))),
            None => Err(ctx.malformed("The value MUST be a number")),
        }
    }
}

/// The keyword `exclusiveMaximum`: a number is below the bound.
#[derive(Debug)]
pub struct ExclusiveMaximum;

impl ExclusiveMaximum {
    /// The check that the keyword stands for: none where `def` has no such
    /// member, and an error where the member is no number.
    pub open spec fn compile_spec(def: JsonValue, ctx: WalkModel) -> KeywordResultModel {
        match def.get("exclusiveMaximum"@) {
            None => Ok(None),
            Some(JsonValue::Number(number)) => Ok(Some(ValidatorModel::ExclusiveMaximum { number })),
            Some(_) => Err(ctx.malformed("The value MUST be a number"@)),
        }
    }

    /// Reads the keyword out of the node `def`, which stands at `ctx`.
    pub fn compile(&self, def: &Json, ctx: &WalkContext<'_>) -> (r: KeywordResult)
        ensures
            crate::keywords::result_view(r) == Self::compile_spec(def@, ctx@),
    {
        let number = match def.get("exclusiveMaximum") {
            Some(number) => number,
            None => {
                return Ok(None);
            },
        };
        match number.as_number() {
            Some(number) => Ok(Some(Validator::ExclusiveMaximum(validators::maxmin::ExclusiveMaximum { number }))),
            None => Err(ctx.malformed("The value MUST be a number")),
        }
    }
}

/// The keyword `minimum`: a number is not below the bound.
#[derive(Debug)]
pub struct Minimum;

impl Minimum {
    /// The check that the keyword stands for: none where `def` has no such
    /// member, and an error where the member is no number.
    pub open spec fn compile_spec(def: JsonValue, ctx: WalkModel) -> KeywordResultModel {
        match def.get("minimum"@) {
            None => Ok(None),
            Some(JsonValue::Number(number)) => Ok(Some(ValidatorModel::Minimum { number })),
            Some(_) => Err(ctx.malformed("The value MUST be a number"@)),
        }
    }

    /// Reads the keyword out of the node `def`, which stands at `ctx`.
    pub fn compile(&self, def: &Json, ctx: &WalkContext<'_>) -> (r: KeywordResult)
        ensures
            crate::keywords::result_view(r) == Self::compile_spec(def@, ctx@),
    {
        let number = match def.get("minimum") {
            Some(number) => number,
            None => {
                return Ok(None);
            },
        };
        match number.as_number() {
            Some(number) => Ok(Some(Validator::Minimum(validators::maxmin::Minimum { number }))),
            None => Err(ctx.malformed("The value MUST be a number")),
        }
    }
}

/// The keyword `exclusiveMinimum`: a number is above the bound.
#[derive(Debug)]
pub struct ExclusiveMinimum;

impl ExclusiveMinimum {
    /// The check that the keyword stands for: none where `def` has no such
    /// member, and an error where the member is no number.
    pub open spec fn compile_spec(def: JsonValue, ctx: WalkModel) -> KeywordResultModel {
        match def.get("exclusiveMinimum"@) {
            None => Ok(None),
            Some(JsonValue::Number(number)) => Ok(Some(ValidatorModel::ExclusiveMinimum { number })),
            Some(_) => Err(ctx.malformed("The value MUST be a number"@)),
        }
    }

    /// Reads the keyword out of the node `def`, which stands at `ctx`.
    pub fn compile(&self, def: &Json, ctx: &WalkContext<'_>) -> (r: KeywordResult)
        ensures
            crate::keywords::result_view(r) == Self::compile_spec(def@, ctx@),
    {
        let number = match def.get("exclusiveMinimum") {
            Some(number) => number,
            None => {
                return Ok(None);
            },
        };
        match number.as_number() {
            Some(number) => Ok(Some(Validator::ExclusiveMinimum(validators::maxmin::ExclusiveMinimum { number }))),
            None => Err(ctx.malformed("The value MUST be a number")),
        }
    }
}

} // verus!
