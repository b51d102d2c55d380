use crate::json::{Json, JsonValue};
use crate::keywords::{KeywordResult, KeywordResultModel};
use crate::primitive_types::PrimitiveType;
use crate::schema::{SchemaError, WalkContext, WalkModel};
use crate::validators;
use crate::validators::type_::TypeKind;
use crate::validators::{json_models, TypeKindModel, Validator, ValidatorModel};
use vstd::prelude::*;

verus! {

broadcast use vstd::seq::group_seq_axioms;

/// The keyword `type`: the value is of one of the kinds named.
#[derive(Debug)]
pub struct Type;

/// What is said of a name that names no kind.
pub open spec fn unknown_type(name: Seq<char>) -> Seq<char> {
    "This primitive type is unknown: "@ + name
}

/// The kinds that the first `n` elements of `a` name, or what is said of the
/// first of them that is no string or names no kind.
pub open spec fn listed_types(a: Seq<JsonValue>, n: nat) -> Result<Seq<PrimitiveType>, Seq<char>>
    decreases n,
{
    if n == 0 || n > a.len() {
        Ok(Seq::empty())
    } else {
        match listed_types(a, (n - 1) as nat) {
            Err(detail) => Err(detail),
            Ok(types) => match a[n - 1] {
                JsonValue::String(name) => match PrimitiveType::named(name) {
                    Some(t) => Ok(types.push(t)),
                    None => Err(unknown_type(name)),
                },
                _ => Err("Each type MUST be a string"@),
            },
        }
    }
}

impl Type {
    /// The check that the keyword stands for: none where `def` has no `type`;
    /// the kind that the member names, or the kinds that its elements name;
    /// an error where the member is neither a string nor an array, or where
    /// it names what is no kind.
    pub open spec fn compile_spec(def: JsonValue, ctx: WalkModel) -> KeywordResultModel {
        match def.get("type"@) {
            None => Ok(None),
            Some(JsonValue::String(name)) => match PrimitiveType::named(name) {
                Some(t) => Ok(Some(ValidatorModel::Type { item: TypeKindModel::Single(t) })),
                None => Err(ctx.malformed(unknown_type(name))),
            },
            Some(JsonValue::Array(a)) => match listed_types(a, a.len()) {
                Ok(types) => Ok(Some(ValidatorModel::Type { item: TypeKindModel::AnyOf(types) })),
                Err(detail) => Err(ctx.malformed(detail)),
            },
            Some(_) => Err(ctx.malformed("The value of type MUST be a string or an array"@)),
        }
    }

    /// What is said of `name`, which names no kind.
    fn unknown(ctx: &WalkContext<'_>, name: &str) -> (r: SchemaError)
        ensures
            r@ == ctx@.malformed(unknown_type(name@)),
    {
        let mut detail = "This primitive type is unknown: ".to_string();
        detail.append(name);
        ctx.malformed(detail.as_str())
    }

    /// Reads the keyword out of the node `def`, which stands at `ctx`.
    pub fn compile(&self, def: &Json, ctx: &WalkContext<'_>) -> (r: KeywordResult)
        ensures
            crate::keywords::result_view(r) == Self::compile_spec(def@, ctx@),
    {
        let type_ = match def.get("type") {
            Some(type_) => type_,
            None => {
                return Ok(None);
            },
        };
        match type_ {
            Json::String(name) => match PrimitiveType::from_name(name.as_str()) {
                Some(t) => Ok(
                    Some(Validator::Type(validators::type_::Type { item: TypeKind::Single(t) })),
                ),
                None => Err(Self::unknown(ctx, name.as_str())),
            },
            Json::Array(array) => {
                let ghost a = type_@.elements();
                assert(a =~= json_models(array@));
                let mut types: Vec<PrimitiveType> = Vec::new();
                let mut i: usize = 0;
                while i < array.len()
                    invariant
                        i <= array.len(),
                        a == json_models(array@),
                        type_@ == JsonValue::Array(a),
                        def@.get("type"@) == Some(type_@),
                        listed_types(a, i as nat) == Ok::<Seq<PrimitiveType>, Seq<char>>(types@),
                    decreases array.len() - i,
                {
                    assert(a[i as int] == array[i as int]@);
                    match array[i].as_str() {
                        Some(name) => match PrimitiveType::from_name(name) {
                            Some(t) => {
                                types.push(t);
                            },
                            None => {
                                proof {
                                    lemma_listed_error(a, (i + 1) as nat, a.len());
                                }
                                return Err(Self::unknown(ctx, name));
                            },
                        },
                        None => {
                            proof {
                                lemma_listed_error(a, (i + 1) as nat, a.len());
                            }
                            return Err(ctx.malformed("Each type MUST be a string"));
                        },
                    }
                    i = i + 1;
                }
                Ok(Some(Validator::Type(validators::type_::Type { item: TypeKind::AnyOf(types) })))
            },
            _ => Err(ctx.malformed("The value of type MUST be a string or an array")),
        }
    }
}

/// What is said of the first element at fault stays what is said of the
/// whole list.
pub proof fn lemma_listed_error(a: Seq<JsonValue>, n: nat, m: nat)
    requires
        n <= m <= a.len(),
        listed_types(a, n) is Err,
    ensures
        listed_types(a, m) == listed_types(a, n),
    decreases m,
{
    if n < m {
        lemma_listed_error(a, n, (m - 1) as nat);
    }
}

} // verus!
