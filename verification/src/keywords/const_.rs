use crate::json::{Json, JsonValue};
use crate::keywords::{KeywordResult, KeywordResultModel};
use crate::schema::{WalkContext, WalkModel};
use crate::validators;
use crate::validators::{Validator, ValidatorModel};
use vstd::prelude::*;

verus! {

/// The keyword `const`: the value is the one that the schema names.
#[derive(Debug)]
pub struct Const;

impl Const {
    /// The check that the keyword stands for: none where `def` has no
    /// `const`, and else the value of the member.
    pub open spec fn compile_spec(def: JsonValue, ctx: WalkModel) -> KeywordResultModel {
        match def.get("const"@) {
            None => Ok(None),
            Some(item) => Ok(Some(ValidatorModel::Const { item })),
        }
    }

    /// Reads the keyword out of the node `def`, which stands at `ctx`.
    pub fn compile(&self, def: &Json, _ctx: &WalkContext<'_>) -> (r: KeywordResult)
        ensures
            crate::keywords::result_view(r) == Self::compile_spec(def@, _ctx@),
    {
        match def.get("const") {
            Some(const_) => Ok(
                Some(Validator::Const(validators::const_::Const { item: const_.clone() })),
            ),
            None => Ok(None),
        }
    }
}

} // verus!
