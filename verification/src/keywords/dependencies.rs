use crate::json::{Json, JsonValue, MemberValue};
use crate::keywords::properties::{named_url, url_for_name};
use crate::keywords::required::{all_strings, string_texts, strings_of};
use crate::keywords::{KeywordResult, KeywordResultModel};
use crate::schema::{WalkContext, WalkModel};
use crate::validators;
use crate::validators::dependencies::{dependency_models, DepKind, Dependency};
use crate::validators::{DepKindModel, DependencyModel, Validator, ValidatorModel};
use vstd::prelude::*;

verus! {

broadcast use vstd::seq::group_seq_axioms;

/// The keyword `dependencies`: where an object has a member that the keyword
/// names, it matches the schema given for it, or has the members listed for
/// it.
#[derive(Debug)]
pub struct Dependencies;

/// What the first `n` of `members` ask for, or what is said of the first of
/// them that is neither a schema nor a list of names.
pub open spec fn listed_dependencies(ctx: WalkModel, members: Seq<MemberValue>, n: nat) -> Result<
    Seq<DependencyModel>,
    Seq<char>,
>
    decreases n,
{
    if n == 0 || n > members.len() {
        Ok(Seq::empty())
    } else {
        match listed_dependencies(ctx, members, (n - 1) as nat) {
            Err(detail) => Err(detail),
            Ok(items) => {
                let m = members[n - 1];
                match m.value {
                    JsonValue::Array(a) => if all_strings(a) {
                        Ok(
                            items.push(
                                DependencyModel {
                                    key: m.key,
                                    kind: DepKindModel::Property(string_texts(a)),
                                },
                            ),
                        )
                    } else {
                        Err("Each element MUST be a string"@)
                    },
                    v => if v is Object || v is Bool {
                        Ok(
                            items.push(
                                DependencyModel {
                                    key: m.key,
                                    kind: DepKindModel::Schema(
                                        named_url(ctx, "dependencies"@, m.key),
                                    ),
                                },
                            ),
                        )
                    } else {
                        Err("Each item MUST be an object, a boolean or an array"@)
                    },
                }
            },
        }
    }
}

/// What is said of the first member at fault stays what is said of them all.
pub proof fn lemma_dependencies_error(ctx: WalkModel, members: Seq<MemberValue>, n: nat, m: nat)
    requires
        n <= m <= members.len(),
        listed_dependencies(ctx, members, n) is Err,
    ensures
        listed_dependencies(ctx, members, m) == listed_dependencies(ctx, members, n),
    decreases m,
{
    if n < m {
        lemma_dependencies_error(ctx, members, n, (m - 1) as nat);
    }
}

impl Dependencies {
    /// The check that the keyword stands for: none where `def` has no
    /// `dependencies`; what each member of it asks for; an error where the
    /// member is no object or holds what is neither a schema nor a list of
    /// names.
    pub open spec fn compile_spec(def: JsonValue, ctx: WalkModel) -> KeywordResultModel {
        match def.get("dependencies"@) {
            None => Ok(None),
            Some(JsonValue::Object(members)) => match listed_dependencies(
                ctx,
                members,
                members.len(),
            ) {
                Ok(items) => Ok(Some(ValidatorModel::Dependencies { items })),
                Err(detail) => Err(ctx.malformed(detail)),
            },
            Some(_) => Err(ctx.malformed("The value of this keyword MUST be an object."@)),
        }
    }

    /// Reads the keyword out of the node `def`, which stands at `ctx`.
    #[verifier::loop_isolation(false)]
    pub fn compile(&self, def: &Json, ctx: &WalkContext<'_>) -> (r: KeywordResult)
        ensures
            crate::keywords::result_view(r) == Self::compile_spec(def@, ctx@),
    {
        let deps = match def.get("dependencies") {
            Some(deps) => deps,
            None => {
                return Ok(None);
            },
        };
        let members = match deps.as_object() {
            Some(members) => members,
            None => {
                return Err(ctx.malformed("The value of this keyword MUST be an object."));
            },
        };
        let ghost models = deps@.members();
        let mut items: Vec<Dependency> = Vec::new();
        assert(dependency_models(items@) =~= Seq::<DependencyModel>::empty());
        let mut i: usize = 0;
        while i < members.len()
            invariant
                i <= members.len(),
                listed_dependencies(ctx@, models, i as nat) == Ok::<
                    Seq<DependencyModel>,
                    Seq<char>,
                >(dependency_models(items@)),
            decreases members.len() - i,
        {
            assert(models[i as int] == members[i as int]@);
            let member = &members[i];
            let ghost prior = items@;
            let kind = match member.value.as_array() {
                Some(array) => {
                    assert(member.value@.elements() =~= crate::validators::json_models(array@));
                    match strings_of(array) {
                        Some(keys) => DepKind::Property(keys),
                        None => {
                            proof {
                                lemma_dependencies_error(
                                    ctx@,
                                    models,
                                    (i + 1) as nat,
                                    models.len(),
                                );
                            }
                            return Err(ctx.malformed("Each element MUST be a string"));
                        },
                    }
                },
                None => {
                    if member.value.is_object() || member.value.is_bool() {
                        DepKind::Schema(url_for_name(ctx, "dependencies", member.key.as_str()))
                    } else {
                        proof {
                            lemma_dependencies_error(ctx@, models, (i + 1) as nat, models.len());
                        }
                        return Err(
                            ctx.malformed("Each item MUST be an object, a boolean or an array"),
                        );
                    }
                },
            };
            let item = Dependency { key: member.key.clone(), kind };
            items.push(item);
            assert(dependency_models(items@) =~= dependency_models(prior).push(item@));
            i = i + 1;
        }
        Ok(Some(Validator::Dependencies(validators::dependencies::Dependencies { items })))
    }
}

} // verus!
