use crate::json::{Json, JsonValue};
use crate::keywords::{KeywordResult, KeywordResultModel};
use crate::schema::{WalkContext, WalkModel};
use crate::validators;
use crate::validators::{json_models, Validator, ValidatorModel};
use vstd::prelude::*;

verus! {

broadcast use vstd::seq::group_seq_axioms;

/// The keyword `enum`: the value is one of those that the schema lists.
#[derive(Debug)]
pub struct Enum;

impl Enum {
    /// The check that the keyword stands for: none where `def` has no `enum`;
    /// the values listed; an error where the member is no array or lists
    /// nothing.
    pub open spec fn compile_spec(def: JsonValue, ctx: WalkModel) -> KeywordResultModel {
        match def.get("enum"@) {
            None => Ok(None),
            Some(JsonValue::Array(a)) => if a.len() == 0 {
                Err(ctx.malformed("This array must have at least one element."@))
            } else {
                Ok(Some(ValidatorModel::Enum { values: a }))
            },
            Some(_) => Err(ctx.malformed("The value of this keyword must be an array."@)),
        }
    }

    /// Reads the keyword out of the node `def`, which stands at `ctx`.
    pub fn compile(&self, def: &Json, ctx: &WalkContext<'_>) -> (r: KeywordResult)
        ensures
            crate::keywords::result_view(r) == Self::compile_spec(def@, ctx@),
    {
        let enum_ = match def.get("enum") {
            Some(enum_) => enum_,
            None => {
                return Ok(None);
            },
        };
        let array = match enum_.as_array() {
            Some(array) => array,
            None => {
                return Err(ctx.malformed("The value of this keyword must be an array."));
            },
        };
        if array.len() == 0 {
            return Err(ctx.malformed("This array must have at least one element."));
        }
        let ghost a = enum_@.elements();
        let mut items: Vec<Json> = Vec::new();
        let mut i: usize = 0;
        while i < array.len()
            invariant
                i <= array.len(),
                a == enum_@.elements(),
                a.len() == array.len(),
                forall|k: int| 0 <= k < array.len() ==> a[k] == array[k]@,
                json_models(items@) == a.take(i as int),
            decreases array.len() - i,
        {
            let ghost prior = items@;
            let item = array[i].clone();
            items.push(item);
            proof {
                assert(json_models(items@) == json_models(prior).push(item@));
                assert(a.take(i + 1) == a.take(i as int).push(a[i as int]));
            }
            i = i + 1;
        }
        assert(a.take(array.len() as int) == a);
        Ok(Some(Validator::Enum(validators::enum_::Enum { items })))
    }
}

} // verus!
