use crate::json::{Json, JsonValue};
use crate::keywords::of::{all_schemas, all_schemas_in, listed_urls, urls_below};
use crate::keywords::{sub_url, sub_url_spec, KeywordResult, KeywordResultModel};
use crate::schema::{SchemaError, SchemaErrorModel, WalkContext, WalkModel};
use crate::validators;
use crate::validators::items::{AdditionalKind, ItemsKind};
use crate::validators::{
    json_models, AdditionalKindModel, ItemsKindModel, Validator, ValidatorModel,
};
use vstd::prelude::*;

verus! {

broadcast use vstd::seq::group_seq_axioms;

/// The keywords `items` and `additionalItems`: the elements of an array match
/// the schemas below `items`, and those that `items` has no schema for are
/// as `additionalItems` says.
#[derive(Debug)]
pub struct Items;

/// What `items` says: nothing where `def` has no such member; one schema for
/// all elements where the member is an object or a boolean; one for each
/// place where it is an array of such; else an error.
pub open spec fn items_kind(def: JsonValue, ctx: WalkModel) -> Result<
    Option<ItemsKindModel>,
    SchemaErrorModel,
> {
    match def.get("items"@) {
        None => Ok(None),
        Some(JsonValue::Array(a)) => if all_schemas(a) {
            Ok(Some(ItemsKindModel::Array(listed_urls(ctx, "items"@, a.len()))))
        } else {
            Err(ctx.malformed("Items of this array MUST be objects or booleans"@))
        },
        Some(v) => if v is Object || v is Bool {
            Ok(Some(ItemsKindModel::Schema(sub_url_spec(ctx, "items"@))))
        } else {
            Err(ctx.malformed("`items` must be an object, an array or a boolean"@))
        },
    }
}

/// What the member `key` says of what nothing else speaks of: nothing where
/// `def` has no such member; that it is allowed or not where the member is a
/// boolean; a schema where it is an object; else an error that says
/// `detail`.
pub open spec fn additional_kind(def: JsonValue, ctx: WalkModel, key: Seq<char>, detail: Seq<char>) -> Result<
    Option<AdditionalKindModel>,
    SchemaErrorModel,
> {
    match def.get(key) {
        None => Ok(None),
        Some(JsonValue::Bool(b)) => Ok(Some(AdditionalKindModel::Boolean(b))),
        Some(JsonValue::Object(_)) => Ok(Some(AdditionalKindModel::Schema(sub_url_spec(ctx, key)))),
        Some(_) => Err(ctx.malformed(detail)),
    }
}

/// The model of what `read_additional` gives.
pub open spec fn additional_view(r: Result<Option<AdditionalKind>, SchemaError>) -> Result<
    Option<AdditionalKindModel>,
    SchemaErrorModel,
> {
    match r {
        Ok(Some(k)) => Ok(Some(k@)),
        Ok(None) => Ok(None),
        Err(e) => Err(e@),
    }
}

/// Reads what the member `key` says of what nothing else speaks of.
pub fn read_additional(def: &Json, ctx: &WalkContext<'_>, key: &str, detail: &str) -> (r: Result<
    Option<AdditionalKind>,
    SchemaError,
>)
    ensures
        additional_view(r) == additional_kind(def@, ctx@, key@, detail@),
{
    let value = match def.get(key) {
        Some(value) => value,
        None => {
            return Ok(None);
        },
    };
    match value.as_bool() {
        Some(b) => Ok(Some(AdditionalKind::Boolean(b))),
        None => {
            if value.is_object() {
                Ok(Some(AdditionalKind::Schema(sub_url(ctx, key))))
            } else {
                Err(ctx.malformed(detail))
            }
        },
    }
}

impl Items {
    /// The check that the keywords stand for: none where `def` has neither
    /// `items` nor `additionalItems`.
    pub open spec fn compile_spec(def: JsonValue, ctx: WalkModel) -> KeywordResultModel {
        if def.get("items"@) is None && def.get("additionalItems"@) is None {
            Ok(None)
        } else {
            match items_kind(def, ctx) {
                Err(e) => Err(e),
                Ok(items) => match additional_kind(
                    def,
                    ctx,
                    "additionalItems"@,
                    "`additionalItems` must be a boolean or an object"@,
                ) {
                    Err(e) => Err(e),
                    Ok(additional) => Ok(Some(ValidatorModel::Items { items, additional })),
                },
            }
        }
    }

    /// Reads the keyword out of the node `def`, which stands at `ctx`.
    pub fn compile(&self, def: &Json, ctx: &WalkContext<'_>) -> (r: KeywordResult)
        ensures
            crate::keywords::result_view(r) == Self::compile_spec(def@, ctx@),
    {
        let maybe_items = def.get("items");
        let maybe_additional = def.get("additionalItems");
        if maybe_items.is_none() && maybe_additional.is_none() {
            return Ok(None);
        }
        let items = match maybe_items {
            Some(items_val) => {
                if items_val.is_object() || items_val.is_bool() {
                    Some(ItemsKind::Schema(sub_url(ctx, "items")))
                } else {
                    match items_val.as_array() {
                        Some(array) => {
                            assert(items_val@.elements() =~= json_models(array@));
                            if !all_schemas_in(array) {
                                return Err(
                                    ctx.malformed("Items of this array MUST be objects or booleans"),
                                );
                            }
                            Some(ItemsKind::Array(urls_below(ctx, "items", array.len())))
                        },
                        None => {
                            return Err(
                                ctx.malformed("`items` must be an object, an array or a boolean"),
                            );
                        },
                    }
                }
            },
            None => None,
        };
        let additional = match read_additional(
            def,
            ctx,
            "additionalItems",
            "`additionalItems` must be a boolean or an object",
        ) {
            Ok(additional) => additional,
            Err(e) => {
                return Err(e);
            },
        };
        Ok(Some(Validator::Items(validators::items::Items { items, additional })))
    }
}

} // verus!
