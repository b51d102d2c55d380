use crate::helpers::{encode, encode_spec};
use crate::json::{Json, JsonValue, Member, MemberValue};
use crate::keywords::items::{additional_kind, read_additional};
use crate::keywords::pattern::{is_regex, regex_is_valid};
use crate::keywords::{sub_url, sub_url_spec, KeywordResult, KeywordResultModel};
use crate::schema::{SchemaErrorModel, WalkContext, WalkModel};
use crate::table::Table;
use crate::uri::Uri;
use crate::validators;
use crate::validators::items::AdditionalKind;
use crate::validators::properties::{pattern_models, property_urls, PatternProperty};
use crate::validators::{AdditionalKindModel, PatternModel, Validator, ValidatorModel};
use vstd::prelude::*;

verus! {

broadcast use vstd::seq::group_seq_axioms;

/// The keywords `properties`, `additionalProperties` and `patternProperties`:
/// each member of an object matches the schema for its name and the schemas
/// for the patterns that its name matches, and a member that none of them
/// speaks of is as `additionalProperties` says.
#[derive(Debug)]
pub struct Properties;

/// The identifier of the schema for the name `name` below the member `key` of
/// the node at `ctx`.
pub open spec fn named_url(ctx: WalkModel, key: Seq<char>, name: Seq<char>) -> Seq<char> {
    sub_url_spec(ctx, key + seq!['/'] + encode_spec(name))
}

/// The value of every one of `members` is an object or a boolean.
pub open spec fn all_member_schemas(members: Seq<MemberValue>) -> bool {
    forall|i: int| 0 <= i < members.len() ==> ((#[trigger] members[i]).value is Object
        || members[i].value is Bool)
}

/// For the name of each of the first `n` of `members`, the identifier of its
/// schema. Of two members with one name the later counts.
pub open spec fn named_urls(ctx: WalkModel, key: Seq<char>, members: Seq<MemberValue>, n: nat) -> Map<
    Seq<char>,
    Seq<char>,
>
    decreases n,
{
    if n == 0 || n > members.len() {
        Map::empty()
    } else {
        named_urls(ctx, key, members, (n - 1) as nat).insert(
            members[n - 1].key,
            named_url(ctx, key, members[n - 1].key),
        )
    }
}

/// What `properties` says: no schema where `def` has no such member; a schema
/// for each name where the member is an object of objects and booleans; else
/// an error.
pub open spec fn properties_of(def: JsonValue, ctx: WalkModel) -> Result<
    Map<Seq<char>, Seq<char>>,
    SchemaErrorModel,
> {
    match def.get("properties"@) {
        None => Ok(Map::empty()),
        Some(JsonValue::Object(members)) => if all_member_schemas(members) {
            Ok(named_urls(ctx, "properties"@, members, members.len()))
        } else {
            Err(ctx.malformed("Each value of this object MUST be an object or a boolean"@))
        },
        Some(_) => Err(ctx.malformed("The value of `properties` MUST be an object."@)),
    }
}

/// The patterns that the first `n` of `members` give, or what is said of the
/// first of them whose value is no schema or whose name is no regular
/// expression.
pub open spec fn listed_patterns(ctx: WalkModel, members: Seq<MemberValue>, n: nat) -> Result<
    Seq<PatternModel>,
    Seq<char>,
>
    decreases n,
{
    if n == 0 || n > members.len() {
        Ok(Seq::empty())
    } else {
        match listed_patterns(ctx, members, (n - 1) as nat) {
            Err(detail) => Err(detail),
            Ok(patterns) => {
                let m = members[n - 1];
                if !(m.value is Object || m.value is Bool) {
                    Err("Each value of this object MUST be an object or a boolean"@)
                } else if !is_regex(m.key) {
                    Err("Each property name of this object SHOULD be a valid regular expression."@)
                } else {
                    Ok(
                        patterns.push(
                            PatternModel {
                                pattern: m.key,
                                url: named_url(ctx, "patternProperties"@, m.key),
                            },
                        ),
                    )
                }
            },
        }
    }
}

/// What is said of the first member at fault stays what is said of them all.
pub proof fn lemma_patterns_error(ctx: WalkModel, members: Seq<MemberValue>, n: nat, m: nat)
    requires
        n <= m <= members.len(),
        listed_patterns(ctx, members, n) is Err,
    ensures
        listed_patterns(ctx, members, m) == listed_patterns(ctx, members, n),
    decreases m,
{
    if n < m {
        lemma_patterns_error(ctx, members, n, (m - 1) as nat);
    }
}

/// What `patternProperties` says: no pattern where `def` has no such member;
/// a pattern for each member where it is an object; else an error.
pub open spec fn patterns_of(def: JsonValue, ctx: WalkModel) -> Result<
    Seq<PatternModel>,
    SchemaErrorModel,
> {
    match def.get("patternProperties"@) {
        None => Ok(Seq::empty()),
        Some(JsonValue::Object(members)) => match listed_patterns(ctx, members, members.len()) {
            Ok(patterns) => Ok(patterns),
            Err(detail) => Err(ctx.malformed(detail)),
        },
        Some(_) => Err(ctx.malformed("The value of `patternProperties` MUST be an object."@)),
    }
}

/// What `additionalProperties` says; where `def` has no such member, every
/// member is allowed.
pub open spec fn additional_of(def: JsonValue, ctx: WalkModel) -> Result<
    AdditionalKindModel,
    SchemaErrorModel,
> {
    match additional_kind(
        def,
        ctx,
        "additionalProperties"@,
        "The value of `additionalProperties` MUST be a boolean or an object."@,
    ) {
        Ok(Some(kind)) => Ok(kind),
        Ok(None) => Ok(AdditionalKindModel::Boolean(true)),
        Err(e) => Err(e),
    }
}

/// The identifier of the schema for the name `name` below the member `key`.
pub fn url_for_name(ctx: &WalkContext<'_>, key: &str, name: &str) -> (r: Uri)
    ensures
        r@ == named_url(ctx@, key@, name@),
{
    let mut tail = key.to_string();
    tail.append("/");
    tail.append(encode(name).as_str());
    proof {
        reveal_strlit("/");
        assert(tail@ == key@ + seq!['/'] + encode_spec(name@));
    }
    sub_url(ctx, tail.as_str())
}

/// Whether the value of every one of `members` is an object or a boolean.
pub fn all_member_schemas_in(members: &Vec<Member>) -> (r: bool)
    ensures
        r == all_member_schemas(members@.map_values(|m: Member| m@)),
{
    let ghost models = members@.map_values(|m: Member| m@);
    let mut i: usize = 0;
    while i < members.len()
        invariant
            i <= members.len(),
            models == members@.map_values(|m: Member| m@),
            forall|k: int| 0 <= k < i ==> ((#[trigger] models[k]).value is Object
                || models[k].value is Bool),
        decreases members.len() - i,
    {
        if !(members[i].value.is_object() || members[i].value.is_bool()) {
            assert(!(models[i as int].value is Object || models[i as int].value is Bool));
            return false;
        }
        i = i + 1;
    }
    true
}

impl Properties {
    /// The check that the keywords stand for: none where `def` has none of
    /// the three members.
    pub open spec fn compile_spec(def: JsonValue, ctx: WalkModel) -> KeywordResultModel {
        if def.get("properties"@) is None && def.get("additionalProperties"@) is None && def.get(
            "patternProperties"@,
        ) is None {
            Ok(None)
        } else {
            match properties_of(def, ctx) {
                Err(e) => Err(e),
                Ok(properties) => match additional_of(def, ctx) {
                    Err(e) => Err(e),
                    Ok(additional) => match patterns_of(def, ctx) {
                        Err(e) => Err(e),
                        Ok(patterns) => Ok(
                            Some(ValidatorModel::Properties { properties, additional, patterns }),
                        ),
                    },
                },
            }
        }
    }

    /// Reads the keyword out of the node `def`, which stands at `ctx`.
    #[verifier::loop_isolation(false)]
    pub fn compile(&self, def: &Json, ctx: &WalkContext<'_>) -> (r: KeywordResult)
        ensures
            crate::keywords::result_view(r) == Self::compile_spec(def@, ctx@),
    {
        let maybe_properties = def.get("properties");
        let maybe_additional = def.get("additionalProperties");
        let maybe_pattern = def.get("patternProperties");
        if maybe_properties.is_none() && maybe_additional.is_none() && maybe_pattern.is_none() {
            return Ok(None);
        }
        let mut properties: Table<Uri> = Table::new();
        assert(property_urls(properties) =~= Map::<Seq<char>, Seq<char>>::empty());
        match maybe_properties {
            Some(properties_val) => {
                let members = match properties_val.as_object() {
                    Some(members) => members,
                    None => {
                        return Err(ctx.malformed("The value of `properties` MUST be an object."));
                    },
                };
                let ghost models = properties_val@.members();
                assert(models =~= members@.map_values(|m: Member| m@));
                if !all_member_schemas_in(members) {
                    return Err(
                        ctx.malformed("Each value of this object MUST be an object or a boolean"),
                    );
                }
                let mut i: usize = 0;
                while i < members.len()
                    invariant
                        i <= members.len(),
                        property_urls(properties) == named_urls(
                            ctx@,
                            "properties"@,
                            models,
                            i as nat,
                        ),
                    decreases members.len() - i,
                {
                    let ghost before = property_urls(properties);
                    let url = url_for_name(ctx, "properties", members[i].key.as_str());
                    assert(models[i as int] == members[i as int]@);
                    properties.insert(members[i].key.clone(), url);
                    assert(property_urls(properties) =~= before.insert(members[i as int].key@, url@));
                    i = i + 1;
                }
            },
            None => {},
        }
        let additional = match read_additional(
            def,
            ctx,
            "additionalProperties",
            "The value of `additionalProperties` MUST be a boolean or an object.",
        ) {
            Ok(Some(kind)) => kind,
            Ok(None) => AdditionalKind::Boolean(true),
            Err(e) => {
                return Err(e);
            },
        };
        let mut patterns: Vec<PatternProperty> = Vec::new();
        assert(pattern_models(patterns@) =~= Seq::<PatternModel>::empty());
        match maybe_pattern {
            Some(pattern_val) => {
                let members = match pattern_val.as_object() {
                    Some(members) => members,
                    None => {
                        return Err(
                            ctx.malformed("The value of `patternProperties` MUST be an object."),
                        );
                    },
                };
                let ghost models = pattern_val@.members();
                let mut i: usize = 0;
                while i < members.len()
                    invariant
                        i <= members.len(),
                        listed_patterns(ctx@, models, i as nat) == Ok::<
                            Seq<PatternModel>,
                            Seq<char>,
                        >(pattern_models(patterns@)),
                    decreases members.len() - i,
                {
                    assert(models[i as int] == members[i as int]@);
                    let member = &members[i];
                    if !(member.value.is_object() || member.value.is_bool()) {
                        proof {
                            lemma_patterns_error(ctx@, models, (i + 1) as nat, models.len());
                        }
                        return Err(
                            ctx.malformed("Each value of this object MUST be an object or a boolean"),
                        );
                    }
                    if !regex_is_valid(member.key.as_str()) {
                        proof {
                            lemma_patterns_error(ctx@, models, (i + 1) as nat, models.len());
                        }
                        return Err(
                            ctx.malformed(
                                "Each property name of this object SHOULD be a valid regular expression.",
                            ),
                        );
                    }
                    let ghost prior = patterns@;
                    let url = url_for_name(ctx, "patternProperties", member.key.as_str());
                    let item = PatternProperty { pattern: member.key.clone(), url };
                    patterns.push(item);
                    assert(pattern_models(patterns@) =~= pattern_models(prior).push(item@));
                    i = i + 1;
                }
            },
            None => {},
        }
        Ok(
            Some(
                Validator::Properties(
                    validators::properties::Properties { properties, additional, patterns },
                ),
            ),
        )
    }
}

} // verus!
