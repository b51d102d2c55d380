use crate::json::{Json, JsonValue};
use crate::keywords::{sub_url, sub_url_spec, KeywordResult, KeywordResultModel};
use crate::schema::{WalkContext, WalkModel};
use crate::validators;
use crate::validators::{Validator, ValidatorModel};
use vstd::prelude::*;

verus! {

/// The keyword `propertyNames`: the members of an object match the schema
/// below it.
#[derive(Debug)]
pub struct PropertyNames;

impl PropertyNames {
    /// The check that the keyword stands for: none where `def` has no
    /// `propertyNames`; a check against the schema below `propertyNames`; an
    /// error where the member is neither an object nor a boolean.
    pub open spec fn compile_spec(def: JsonValue, ctx: WalkModel) -> KeywordResultModel {
        match def.get("propertyNames"@) {
            None => Ok(None),
            Some(v) => if v is Object || v is Bool {
                Ok(
                    Some(
                        ValidatorModel::PropertyNames { url: sub_url_spec(ctx, "propertyNames"@) },
                    ),
                )
            } else {
                Err(
                    ctx.malformed(
                        "The value of propertyNames must be an object or a boolean"@,
                    ),
                )
            },
        }
    }

    /// Reads the keyword out of the node `def`, which stands at `ctx`.
    pub fn compile(&self, def: &Json, ctx: &WalkContext<'_>) -> (r: KeywordResult)
        ensures
            crate::keywords::result_view(r) == Self::compile_spec(def@, ctx@),
    {
        let property_names = match def.get("propertyNames") {
            Some(property_names) => property_names,
            None => {
                return Ok(None);
            },
        };
        if property_names.is_object() || property_names.is_bool() {
            Ok(
                Some(
                    Validator::PropertyNames(
                        validators::property_names::PropertyNames {
                            url: sub_url(ctx, "propertyNames"),
                        },
                    ),
                ),
            )
        } else {
            Err(ctx.malformed("The value of propertyNames must be an object or a boolean"))
        }
    }
}

} // verus!
