use crate::json::{Json, JsonValue};
use crate::keywords::{KeywordResult, KeywordResultModel};
use crate::schema::{WalkContext, WalkModel};
use crate::uri::url_joined;
use crate::validators;
use crate::validators::{Validator, ValidatorModel};
use vstd::prelude::*;

verus! {

/// The keyword `$ref`: the value must match the schema that the reference
/// stands for.
#[derive(Debug)]
pub struct Ref;

impl Ref {
    /// The check that the keyword stands for: none where `def` has no
    /// `$ref`; a reference to the identifier that the member names, read
    /// against the identifier of the node; an error where the member is no
    /// string or names no identifier.
    pub open spec fn compile_spec(def: JsonValue, ctx: WalkModel) -> KeywordResultModel {
        match def.get("$ref"@) {
            None => Ok(None),
            Some(JsonValue::String(s)) => match url_joined(ctx.url, s) {
                Some(url) => Ok(Some(ValidatorModel::Ref { url })),
                None => Err(
                    ctx.malformed("The value of $ref must be an URI-encoded JSON Pointer"@),
                ),
            },
            Some(_) => Err(ctx.malformed("The value of $ref must be a string"@)),
        }
    }

    /// Reads the keyword out of the node `def`, which stands at `ctx`.
    pub fn compile(&self, def: &Json, ctx: &WalkContext<'_>) -> (r: KeywordResult)
        ensures
            crate::keywords::result_view(r) == Self::compile_spec(def@, ctx@),
    {
        let ref_ = match def.get("$ref") {
            Some(ref_) => ref_,
            None => {
                return Ok(None);
            },
        };
        match ref_.as_str() {
            Some(text) => match ctx.url.join(text) {
                Ok(url) => Ok(Some(Validator::Ref(validators::ref_::Ref { url }))),
                Err(_) => Err(
                    ctx.malformed("The value of $ref must be an URI-encoded JSON Pointer"),
                ),
            },
            None => Err(ctx.malformed("The value of $ref must be a string")),
        }
    }
}

} // verus!
