use crate::json::{Json, JsonValue};
use crate::keywords::{KeywordResult, KeywordResultModel};
use crate::schema::{WalkContext, WalkModel};
use crate::validators;
use crate::validators::{Validator, ValidatorModel};
use vstd::prelude::*;

verus! {

/// The keyword `multipleOf`: a number is a multiple of the number named.
#[derive(Debug)]
pub struct MultipleOf;

impl MultipleOf {
    /// The check that the keyword stands for: none where `def` has no
    /// `multipleOf`; the check against the number that the member holds; an
    /// error where the member is no number, or a number that is not above
    /// zero.
    pub open spec fn compile_spec(def: JsonValue, ctx: WalkModel) -> KeywordResultModel {
        match def.get("multipleOf"@) {
            None => Ok(None),
            Some(JsonValue::Number(number)) => if number.order > 0 {
                Ok(Some(ValidatorModel::MultipleOf { number }))
            } else {
                Err(ctx.malformed("The value of multipleOf MUST be strictly greater than 0"@))
            },
            Some(_) => Err(ctx.malformed("The value of multipleOf MUST be a number"@)),
        }
    }

    /// Reads the keyword out of the node `def`, which stands at `ctx`.
    pub fn compile(&self, def: &Json, ctx: &WalkContext<'_>) -> (r: KeywordResult)
        ensures
            crate::keywords::result_view(r) == Self::compile_spec(def@, ctx@),
    {
        let multiple_of = match def.get("multipleOf") {
            Some(multiple_of) => multiple_of,
            None => {
                return Ok(None);
            },
        };
        match multiple_of.as_number() {
            Some(number) => {
                if number.order > 0 {
                    Ok(
                        Some(
                            Validator::MultipleOf(validators::multiple_of::MultipleOf { number }),
                        ),
                    )
                } else {
                    Err(ctx.malformed("The value of multipleOf MUST be strictly greater than 0"))
                }
            },
            None => Err(ctx.malformed("The value of multipleOf MUST be a number")),
        }
    }
}

} // verus!
