use crate::json::{Json, JsonValue};
use crate::keywords::{sub_url, sub_url_spec, KeywordResult, KeywordResultModel};
use crate::schema::{SchemaError, SchemaErrorModel, WalkContext, WalkModel};
use crate::text::{decimal, decimal_spec};
use crate::uri::{uri_views, Uri};
use crate::validators;
use crate::validators::{Validator, ValidatorModel};
use vstd::prelude::*;

verus! {

broadcast use vstd::seq::group_seq_axioms;

/// The keyword `allOf`: the value matches each of the schemas listed.
#[derive(Debug)]
pub struct AllOf;

/// The keyword `anyOf`: the value matches one at least of the schemas listed.
#[derive(Debug)]
pub struct AnyOf;

/// The keyword `oneOf`: the value matches one and only one of the schemas
/// listed.
#[derive(Debug)]
pub struct OneOf;

/// The identifiers of the `n` schemas listed under `key` in the node at
/// `ctx`.
pub open spec fn listed_urls(ctx: WalkModel, key: Seq<char>, n: nat) -> Seq<Seq<char>> {
    Seq::new(n, |i: int| sub_url_spec(ctx, key + seq!['/'] + decimal_spec(i as nat)))
}

/// Every element of `a` is an object or a boolean.
pub open spec fn all_schemas(a: Seq<JsonValue>) -> bool {
    forall|i: int| 0 <= i < a.len() ==> (a[i] is Object || a[i] is Bool)
}

/// The identifiers of the schemas listed under `key`: none where `def` has no
/// such member, and an error where the member is no array, lists nothing, or
/// lists what is neither an object nor a boolean.
pub open spec fn listed(def: JsonValue, ctx: WalkModel, key: Seq<char>) -> Result<
    Option<Seq<Seq<char>>>,
    SchemaErrorModel,
> {
    match def.get(key) {
        None => Ok(None),
        Some(JsonValue::Array(a)) => if a.len() == 0 {
            Err(ctx.malformed("This array MUST have at least one element."@))
        } else if !all_schemas(a) {
            Err(ctx.malformed("Elements of the array MUST be objects or booleans."@))
        } else {
            Ok(Some(listed_urls(ctx, key, a.len())))
        },
        Some(_) => Err(ctx.malformed("The value of this keyword MUST be an array."@)),
    }
}

/// The model of what `list` gives.
pub open spec fn list_view(r: Result<Option<Vec<Uri>>, SchemaError>) -> Result<
    Option<Seq<Seq<char>>>,
    SchemaErrorModel,
> {
    match r {
        Ok(Some(urls)) => Ok(Some(uri_views(urls@))),
        Ok(None) => Ok(None),
        Err(e) => Err(e@),
    }
}

/// Whether every element of `array` is an object or a boolean.
pub fn all_schemas_in(array: &Vec<Json>) -> (r: bool)
    ensures
        r == all_schemas(crate::validators::json_models(array@)),
{
    let ghost a = crate::validators::json_models(array@);
    let mut i: usize = 0;
    while i < array.len()
        invariant
            i <= array.len(),
            a == crate::validators::json_models(array@),
            forall|k: int| 0 <= k < i ==> (a[k] is Object || a[k] is Bool),
        decreases array.len() - i,
    {
        if !(array[i].is_object() || array[i].is_bool()) {
            assert(!(a[i as int] is Object || a[i as int] is Bool));
            return false;
        }
        i = i + 1;
    }
    true
}

/// The identifiers of the `n` schemas listed under `key` in the node at
/// `ctx`.
pub fn urls_below(ctx: &WalkContext<'_>, key: &str, n: usize) -> (r: Vec<Uri>)
    ensures
        uri_views(r@) == listed_urls(ctx@, key@, n as nat),
{
    let mut schemes: Vec<Uri> = Vec::new();
    let mut i: usize = 0;
    while i < n
        invariant
            i <= n,
            uri_views(schemes@) == listed_urls(ctx@, key@, i as nat),
        decreases n - i,
    {
        let mut tail = key.to_string();
        tail.append("/");
        tail.append(decimal(i).as_str());
        proof {
            reveal_strlit("/");
            assert(tail@ == key@ + seq!['/'] + decimal_spec(i as nat));
        }
        let ghost prior = schemes@;
        let url = sub_url(ctx, tail.as_str());
        schemes.push(url);
        proof {
            assert(uri_views(schemes@) == uri_views(prior).push(url@));
            assert(listed_urls(ctx@, key@, (i + 1) as nat) == listed_urls(ctx@, key@, i as nat).push(
                url@,
            ));
        }
        i = i + 1;
    }
    schemes
}

/// Reads the list of schemas under `key`.
fn list(def: &Json, ctx: &WalkContext<'_>, key: &str) -> (r: Result<Option<Vec<Uri>>, SchemaError>)
    ensures
        list_view(r) == listed(def@, ctx@, key@),
{
    let of = match def.get(key) {
        Some(of) => of,
        None => {
            return Ok(None);
        },
    };
    let array = match of.as_array() {
        Some(array) => array,
        None => {
            return Err(ctx.malformed("The value of this keyword MUST be an array."));
        },
    };
    if array.len() == 0 {
        return Err(ctx.malformed("This array MUST have at least one element."));
    }
    if !all_schemas_in(array) {
        assert(of@.elements() =~= crate::validators::json_models(array@));
        return Err(ctx.malformed("Elements of the array MUST be objects or booleans."));
    }
    assert(of@.elements() =~= crate::validators::json_models(array@));
    let schemes = urls_below(ctx, key, array.len());
    Ok(Some(schemes))
}

impl AllOf {
    /// The check that the keyword stands for.
    pub open spec fn compile_spec(def: JsonValue, ctx: WalkModel) -> KeywordResultModel {
        match listed(def, ctx, "allOf"@) {
            Ok(Some(schemes)) => Ok(Some(ValidatorModel::AllOf { schemes })),
            Ok(None) => Ok(None),
            Err(e) => Err(e),
        }
    }

    /// Reads the keyword out of the node `def`, which stands at `ctx`.
    pub fn compile(&self, def: &Json, ctx: &WalkContext<'_>) -> (r: KeywordResult)
        ensures
            crate::keywords::result_view(r) == Self::compile_spec(def@, ctx@),
    {
        match list(def, ctx, "allOf") {
            Ok(Some(schemes)) => Ok(Some(Validator::AllOf(validators::of::AllOf { schemes }))),
            Ok(None) => Ok(None),
            Err(e) => Err(e),
        }
    }
}

impl AnyOf {
    /// The check that the keyword stands for.
    pub open spec fn compile_spec(def: JsonValue, ctx: WalkModel) -> KeywordResultModel {
        match listed(def, ctx, "anyOf"@) {
            Ok(Some(schemes)) => Ok(Some(ValidatorModel::AnyOf { schemes })),
            Ok(None) => Ok(None),
            Err(e) => Err(e),
        }
    }

    /// Reads the keyword out of the node `def`, which stands at `ctx`.
    pub fn compile(&self, def: &Json, ctx: &WalkContext<'_>) -> (r: KeywordResult)
        ensures
            crate::keywords::result_view(r) == Self::compile_spec(def@, ctx@),
    {
        match list(def, ctx, "anyOf") {
            Ok(Some(schemes)) => Ok(Some(Validator::AnyOf(validators::of::AnyOf { schemes }))),
            Ok(None) => Ok(None),
            Err(e) => Err(e),
        }
    }
}

impl OneOf {
    /// The check that the keyword stands for.
    pub open spec fn compile_spec(def: JsonValue, ctx: WalkModel) -> KeywordResultModel {
        match listed(def, ctx, "oneOf"@) {
            Ok(Some(schemes)) => Ok(Some(ValidatorModel::OneOf { schemes })),
            Ok(None) => Ok(None),
            Err(e) => Err(e),
        }
    }

    /// Reads the keyword out of the node `def`, which stands at `ctx`.
    pub fn compile(&self, def: &Json, ctx: &WalkContext<'_>) -> (r: KeywordResult)
        ensures
            crate::keywords::result_view(r) == Self::compile_spec(def@, ctx@),
    {
        match list(def, ctx, "oneOf") {
            Ok(Some(schemes)) => Ok(Some(Validator::OneOf(validators::of::OneOf { schemes }))),
            Ok(None) => Ok(None),
            Err(e) => Err(e),
        }
    }
}

} // verus!
