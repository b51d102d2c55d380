use crate::json::{Json, JsonValue};
use crate::keywords::{sub_url, sub_url_spec, KeywordResult, KeywordResultModel};
use crate::schema::{WalkContext, WalkModel};
use crate::validators;
use crate::validators::{Validator, ValidatorModel};
use vstd::prelude::*;

verus! {

/// The keyword `contains`: an element of an array matches the schema below
/// it.
#[derive(Debug)]
pub struct Contains;

impl Contains {
    /// The check that the keyword stands for: none where `def` has no
    /// `contains`; a check against the schema below `contains`; an error
    /// where the member is neither an object nor a boolean.
    pub open spec fn compile_spec(def: JsonValue, ctx: WalkModel) -> KeywordResultModel {
        match def.get("contains"@) {
            None => Ok(None),
            Some(v) => if v is Object || v is Bool {
                Ok(Some(ValidatorModel::Contains { url: sub_url_spec(ctx, "contains"@) }))
            } else {
                Err(ctx.malformed("The value of contains MUST be an object or a boolean"@))
            },
        }
    }

    /// Reads the keyword out of the node `def`, which stands at `ctx`.
    pub fn compile(&self, def: &Json, ctx: &WalkContext<'_>) -> (r: KeywordResult)
        ensures
            crate::keywords::result_view(r) == Self::compile_spec(def@, ctx@),
    {
        let contains = match def.get("contains") {
            Some(contains) => contains,
            None => {
                return Ok(None);
            },
        };
        if contains.is_object() || contains.is_bool() {
            Ok(
                Some(
                    Validator::Contains(
                        validators::contains::Contains { url: sub_url(ctx, "contains") },
                    ),
                ),
            )
        } else {
            Err(ctx.malformed("The value of contains MUST be an object or a boolean"))
        }
    }
}

} // verus!
