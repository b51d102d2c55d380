use crate::json::{Json, JsonValue};
use crate::keywords::{KeywordResult, KeywordResultModel};
use crate::schema::{WalkContext, WalkModel};
use crate::validators;
use crate::validators::{Validator, ValidatorModel};
use vstd::prelude::*;

verus! {

/// The keyword `uniqueItems`: an array holds no value twice.
#[derive(Debug)]
pub struct UniqueItems;

impl UniqueItems {
    /// The check that the keyword stands for: the check where the member is
    /// `true`; none where it is `false` or `def` has no `uniqueItems`; an
    /// error where the member is no boolean.
    pub open spec fn compile_spec(def: JsonValue, ctx: WalkModel) -> KeywordResultModel {
        match def.get("uniqueItems"@) {
            None => Ok(None),
            Some(JsonValue::Bool(true)) => Ok(Some(ValidatorModel::UniqueItems)),
            Some(JsonValue::Bool(false)) => Ok(None),
            Some(_) => Err(ctx.malformed("The value of uniqueItems MUST be boolean"@)),
        }
    }

    /// Reads the keyword out of the node `def`, which stands at `ctx`.
    pub fn compile(&self, def: &Json, ctx: &WalkContext<'_>) -> (r: KeywordResult)
        ensures
            crate::keywords::result_view(r) == Self::compile_spec(def@, ctx@),
    {
        let uniq = match def.get("uniqueItems") {
            Some(uniq) => uniq,
            None => {
                return Ok(None);
            },
        };
        match uniq.as_bool() {
            Some(true) => Ok(
                Some(Validator::UniqueItems(validators::unique_items::UniqueItems)),
            ),
            Some(false) => Ok(None),
            None => Err(ctx.malformed("The value of uniqueItems MUST be boolean")),
        }
    }
}

} // verus!
