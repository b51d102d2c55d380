use crate::json::{Json, JsonValue};
use crate::keywords::{sub_url, sub_url_spec, KeywordResult, KeywordResultModel};
use crate::schema::{WalkContext, WalkModel};
use crate::validators;
use crate::validators::{Validator, ValidatorModel};
use vstd::prelude::*;

verus! {

/// The keyword `not`: the value does not match the schema below it.
#[derive(Debug)]
pub struct Not;

impl Not {
    /// The check that the keyword stands for: none where `def` has no `not`;
    /// a check against the schema below `not`; an error where the member is
    /// neither an object nor a boolean.
    pub open spec fn compile_spec(def: JsonValue, ctx: WalkModel) -> KeywordResultModel {
        match def.get("not"@) {
            None => Ok(None),
            Some(v) => if v is Object || v is Bool {
                Ok(Some(ValidatorModel::Not { url: sub_url_spec(ctx, "not"@) }))
            } else {
                Err(ctx.malformed("The value of `not` MUST be an object or a boolean"@))
            },
        }
    }

    /// Reads the keyword out of the node `def`, which stands at `ctx`.
    pub fn compile(&self, def: &Json, ctx: &WalkContext<'_>) -> (r: KeywordResult)
        ensures
            crate::keywords::result_view(r) == Self::compile_spec(def@, ctx@),
    {
        let not = match def.get("not") {
            Some(not) => not,
            None => {
                return Ok(None);
            },
        };
        if not.is_object() || not.is_bool() {
            Ok(Some(Validator::Not(validators::not::Not { url: sub_url(ctx, "not") })))
        } else {
            Err(ctx.malformed("The value of `not` MUST be an object or a boolean"))
        }
    }
}

} // verus!
