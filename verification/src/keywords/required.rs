use crate::json::{Json, JsonValue};
use crate::keywords::{KeywordResult, KeywordResultModel};
use crate::schema::{WalkContext, WalkModel};
use crate::text::views;
use crate::validators;
use crate::validators::{Validator, ValidatorModel};
use vstd::prelude::*;

verus! {

broadcast use vstd::seq::group_seq_axioms;

/// The keyword `required`: an object has a member for each name listed.
#[derive(Debug)]
pub struct Required;

/// The texts of a list of strings.
pub open spec fn string_texts(a: Seq<JsonValue>) -> Seq<Seq<char>> {
    Seq::new(
        a.len(),
        |i: int|
            match a[i] {
                JsonValue::String(s) => s,
                _ => Seq::empty(),
            },
    )
}

/// Every element of `a` is a string.
pub open spec fn all_strings(a: Seq<JsonValue>) -> bool {
    forall|i: int| 0 <= i < a.len() ==> a[i] is String
}

/// The texts of `array`, where every element of it is a string.
pub fn strings_of(array: &Vec<Json>) -> (r: Option<Vec<String>>)
    ensures
        r is Some <==> all_strings(crate::validators::json_models(array@)),
        r matches Some(items) ==> views(items@) == string_texts(
            crate::validators::json_models(array@),
        ),
{
    let ghost a = crate::validators::json_models(array@);
    let mut items: Vec<String> = Vec::new();
    let mut i: usize = 0;
    while i < array.len()
        invariant
            i <= array.len(),
            a == crate::validators::json_models(array@),
            forall|k: int| 0 <= k < i ==> a[k] is String,
            views(items@) == string_texts(a).take(i as int),
        decreases array.len() - i,
    {
        match array[i].as_str() {
            Some(text) => {
                let ghost prior = items@;
                items.push(text.to_string());
                proof {
                    assert(views(items@) == views(prior).push(text@));
                    assert(string_texts(a).take(i + 1) == string_texts(a).take(i as int).push(
                        text@,
                    ));
                }
            },
            None => {
                assert(!(a[i as int] is String));
                return None;
            },
        }
        i = i + 1;
    }
    assert(string_texts(a).take(array.len() as int) == string_texts(a));
    Some(items)
}

impl Required {
    /// The check that the keyword stands for: none where `def` has no
    /// `required`; the names listed, in their order; an error where the
    /// member is no array or an element of it is no string.
    pub open spec fn compile_spec(def: JsonValue, ctx: WalkModel) -> KeywordResultModel {
        match def.get("required"@) {
            None => Ok(None),
            Some(JsonValue::Array(a)) => if all_strings(a) {
                Ok(Some(ValidatorModel::Required { items: string_texts(a) }))
            } else {
                Err(ctx.malformed("The values of `required` must be string"@))
            },
            Some(_) => Err(ctx.malformed("The value of this keyword must be an array."@)),
        }
    }

    /// Reads the keyword out of the node `def`, which stands at `ctx`.
    pub fn compile(&self, def: &Json, ctx: &WalkContext<'_>) -> (r: KeywordResult)
        ensures
            crate::keywords::result_view(r) == Self::compile_spec(def@, ctx@),
    {
        let required = match def.get("required") {
            Some(required) => required,
            None => {
                return Ok(None);
            },
        };
        let array = match required.as_array() {
            Some(array) => array,
            None => {
                return Err(ctx.malformed("The value of this keyword must be an array."));
            },
        };
        assert(required@.elements() =~= crate::validators::json_models(array@));
        let items = match strings_of(array) {
            Some(items) => items,
            None => {
                return Err(ctx.malformed("The values of `required` must be string"));
            },
        };
        Ok(Some(Validator::Required(validators::required::Required { items })))
    }
}

} // verus!
