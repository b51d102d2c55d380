//! Laws of the library: what holds of compilation and validation whatever
//! the document and the value.

use crate::error::{code_of, ErrorKind};
use crate::helpers::{
    lemma_part_named_once, named_once, parts_named_once, segments_differ,
    serialize_schema_path_spec,
};
use crate::json::{JsonValue, MemberValue};
use crate::keywords::{ConsumerModel, KeywordModel, KeywordResultModel};
use crate::schema::{
    child_spec, compile_keywords_spec, compile_root_spec, descend, keys_of, keywords_from,
    schema_result_view, Schema, SchemaError, SchemaErrorModel, SchemaModel, SettingsModel,
    WalkModel,
};
use crate::scope::{first_declared, ScopeModel};
use crate::text::{lemma_split_step, lemma_split_whole, split_spec};
use crate::validators::{
    any_of_outcome, branch_states, branches, has_duplicate, leaf_outcome, one_of_outcome,
    valid_count, validate_node, validate_one, StateModel, ValidatorModel,
};
use vstd::prelude::*;

verus! {

broadcast use vstd::seq::group_seq_axioms;

/// A schema written as `true` compiles to what `{}` compiles to under the same
/// identifier, and one written as `false` to what `{"not": {}}` compiles to.
/// So each pair validates every value alike.
pub proof fn law_boolean_schemas(id: Seq<char>, settings: SettingsModel)
    ensures
        compile_root_spec(JsonValue::Bool(true), id, settings) == compile_root_spec(
            JsonValue::Object(Seq::empty()),
            id,
            settings,
        ),
        compile_root_spec(JsonValue::Bool(false), id, settings) == compile_root_spec(
            JsonValue::Object(
                seq![MemberValue { key: "not"@, value: JsonValue::Object(Seq::empty()) }],
            ),
            id,
            settings,
        ),
{
}

/// What a node finds of a value rests on its checks alone: two nodes with
/// the same checks find the same of every value in every scope, whatever
/// their identifiers, their documents and the nodes below them.
pub proof fn law_validation_rests_on_the_checks(
    a: SchemaModel,
    b: SchemaModel,
    scope: ScopeModel,
    value: JsonValue,
    path: Seq<char>,
    depth: nat,
)
    requires
        a.validators == b.validators,
    ensures
        validate_node(scope, a, value, path, depth) == validate_node(scope, b, value, path, depth),
{
}

/// Compilation is a function of the document, the identifier and the
/// settings: two compilations of the same document under the same identifier
/// give the same schema, or the same error.
pub proof fn law_compilation_is_a_function(
    first: Result<Schema, SchemaError>,
    second: Result<Schema, SchemaError>,
    raw: JsonValue,
    id: Seq<char>,
    settings: SettingsModel,
)
    requires
        schema_result_view(first) == compile_root_spec(raw, id, settings),
        schema_result_view(second) == compile_root_spec(raw, id, settings),
    ensures
        schema_result_view(first) == schema_result_view(second),
        first is Ok <==> second is Ok,
{
}

/// Of an array that holds a value twice, `uniqueItems` reports one error, of
/// the kind `unique_items`; of an array whose elements all differ, and of what
/// is no array, it reports nothing.
pub proof fn law_unique_items(value: JsonValue, path: Seq<char>)
    ensures
        value matches JsonValue::Array(a) && has_duplicate(a) ==> {
            let out = leaf_outcome(ValidatorModel::UniqueItems, value, path);
            &&& out.errors.len() == 1
            &&& out.errors[0].kind == ErrorKind::UniqueItems
            &&& out.errors[0].path == path
            &&& out.missing.len() == 0
        },
        value matches JsonValue::Array(a) && !has_duplicate(a) ==> leaf_outcome(
            ValidatorModel::UniqueItems,
            value,
            path,
        ) == StateModel::empty(),
        code_of(ErrorKind::UniqueItems) == "unique_items"@,
{
}

/// The keyword `required` with the names `a` and `b` compiles to the check
/// for those names. Of an object that has a member `a` and no member `b`,
/// that check reports one error, of the kind `required`, at the path of the
/// member `b`.
pub proof fn law_required_reports_the_absent_member(
    inside: JsonValue,
    path: Seq<char>,
    ctx: WalkModel,
)
    ensures
        KeywordModel::Required.compile(
            JsonValue::Object(
                seq![
                    MemberValue {
                        key: "required"@,
                        value: JsonValue::Array(
                            seq![JsonValue::String("a"@), JsonValue::String("b"@)],
                        ),
                    },
                ],
            ),
            ctx,
        ) == Ok::<Option<ValidatorModel>, SchemaErrorModel>(
            Some(ValidatorModel::Required { items: seq!["a"@, "b"@] }),
        ),
        leaf_outcome(
            ValidatorModel::Required { items: seq!["a"@, "b"@] },
            JsonValue::Object(seq![MemberValue { key: "a"@, value: inside }]),
            path,
        ) == StateModel::of_error(
            crate::validators::plain_error(ErrorKind::Required, path + seq!['/'] + "b"@),
        ),
        code_of(ErrorKind::Required) == "required"@,
{
    reveal_strlit("a");
    reveal_strlit("b");
    reveal_with_fuel(crate::json::last_index, 3);
    reveal_with_fuel(crate::validators::required_outcome, 3);
    assert("a"@.len() == 1 && "a"@[0] == 'a');
    assert("b"@.len() == 1 && "b"@[0] == 'b');
    let listed = seq![JsonValue::String("a"@), JsonValue::String("b"@)];
    assert(crate::keywords::required::string_texts(listed) == seq!["a"@, "b"@]);
    let items = seq!["a"@, "b"@];
    let members = seq![MemberValue { key: "a"@, value: inside }];
    let value = JsonValue::Object(members);
    assert(items.drop_last() == seq!["a"@]);
    assert(seq!["a"@].drop_last() == Seq::<Seq<char>>::empty());
    assert(members.drop_last() == Seq::<MemberValue>::empty());
    assert(value.has("a"@));
    assert(!value.has("b"@));
    let first = crate::validators::required_outcome(seq!["a"@], value, path);
    assert(first == StateModel::empty().append(StateModel::empty()));
    crate::validators::lemma_append_empty(StateModel::empty());
    crate::validators::lemma_append_empty(
        StateModel::of_error(
            crate::validators::plain_error(ErrorKind::Required, path + seq!['/'] + "b"@),
        ),
    );
}

/// An alternative found no violation exactly where the count of such
/// alternatives is not zero.
pub proof fn lemma_valid_count(found: Seq<Option<StateModel>>)
    ensures
        valid_count(found) <= found.len(),
        valid_count(found) >= 1 <==> exists|i: int|
            0 <= i < found.len() && (#[trigger] found[i] matches Some(s) && s.is_valid()),
    decreases found.len(),
{
    if found.len() > 0 {
        let rest = found.drop_last();
        lemma_valid_count(rest);
        if valid_count(rest) >= 1 {
            let i = choose|i: int|
                0 <= i < rest.len() && (#[trigger] rest[i] matches Some(s) && s.is_valid());
            assert(found[i] == rest[i]);
        }
        if exists|i: int|
            0 <= i < found.len() && (#[trigger] found[i] matches Some(s) && s.is_valid()) {
            let i = choose|i: int|
                0 <= i < found.len() && (#[trigger] found[i] matches Some(s) && s.is_valid());
            if i < rest.len() {
                assert(rest[i] == found[i]);
            }
        }
    }
}

/// Where every alternative was followed, the states that an error about
/// alternatives holds are those of the alternatives, one for one.
pub proof fn lemma_branch_states(found: Seq<Option<StateModel>>)
    requires
        forall|i: int| 0 <= i < found.len() ==> #[trigger] found[i] is Some,
    ensures
        branch_states(found).len() == found.len(),
        forall|i: int| 0 <= i < found.len() ==> Some(#[trigger] branch_states(found)[i]) == found[i],
    decreases found.len(),
{
    if found.len() > 0 {
        let rest = found.drop_last();
        assert forall|i: int| 0 <= i < rest.len() implies #[trigger] rest[i] is Some by {
            assert(found[i] is Some);
        }
        lemma_branch_states(rest);
        assert(found.last() is Some);
        assert forall|i: int| 0 <= i < found.len() implies Some(
            #[trigger] branch_states(found)[i],
        ) == found[i] by {
            if i < rest.len() {
                assert(rest[i] == found[i]);
            }
        }
    }
}

/// `anyOf`: where one alternative at least finds no violation, no error is
/// reported. Where every alternative finds one, one error is reported, of the
/// kind `any_of`, and it holds what each of the alternatives found.
pub proof fn law_any_of(schemes: Seq<Seq<char>>, found: Seq<Option<StateModel>>, path: Seq<char>)
    ensures
        (exists|i: int|
            0 <= i < found.len() && (#[trigger] found[i] matches Some(s) && s.is_valid()))
            ==> any_of_outcome(schemes, found, path).errors.len() == 0,
        (forall|i: int|
            0 <= i < found.len() ==> (#[trigger] found[i] matches Some(s) && !s.is_valid())) ==> {
            let out = any_of_outcome(schemes, found, path);
            &&& out.errors.len() == 1
            &&& out.errors[0].kind == ErrorKind::AnyOf
            &&& out.errors[0].path == path
            &&& out.errors[0].states.len() == found.len()
            &&& forall|i: int|
                0 <= i < found.len() ==> Some(#[trigger] out.errors[0].states[i]) == found[i]
        },
        code_of(ErrorKind::AnyOf) == "any_of"@,
{
    lemma_valid_count(found);
    if forall|i: int|
        0 <= i < found.len() ==> (#[trigger] found[i] matches Some(s) && !s.is_valid()) {
        assert forall|i: int| 0 <= i < found.len() implies #[trigger] found[i] is Some by {}
        lemma_branch_states(found);
    }
}

/// `oneOf`: where one alternative and no other finds no violation, no error
/// is reported; where none does, or more than one, one error is reported, of
/// the kind `one_of`.
pub proof fn law_one_of(schemes: Seq<Seq<char>>, found: Seq<Option<StateModel>>, path: Seq<char>)
    ensures
        valid_count(found) == 1 ==> one_of_outcome(schemes, found, path).errors.len() == 0,
        valid_count(found) != 1 ==> {
            let out = one_of_outcome(schemes, found, path);
            &&& out.errors.len() == 1
            &&& out.errors[0].kind == ErrorKind::OneOf
            &&& out.errors[0].path == path
        },
        code_of(ErrorKind::OneOf) == "one_of"@,
{
}

/// What `anyOf` and `oneOf` report of a value is what `any_of_outcome` and
/// `one_of_outcome` give for what the alternatives find of that value.
pub proof fn law_alternatives_are_followed(
    scope: ScopeModel,
    schemes: Seq<Seq<char>>,
    value: JsonValue,
    path: Seq<char>,
    depth: nat,
)
    ensures
        validate_one(scope, ValidatorModel::AnyOf { schemes }, value, path, depth)
            == any_of_outcome(schemes, branches(scope, schemes, value, path, depth), path),
        validate_one(scope, ValidatorModel::OneOf { schemes }, value, path, depth)
            == one_of_outcome(schemes, branches(scope, schemes, value, path, depth), path),
{
}

/// A reference to an identifier that the scope does not hold reports no
/// error, and the identifier as missing, once.
pub proof fn law_unresolved_reference(
    scope: ScopeModel,
    url: Seq<char>,
    value: JsonValue,
    path: Seq<char>,
    depth: nat,
)
    requires
        scope.resolve(url) is None,
    ensures
        validate_one(scope, ValidatorModel::Ref { url }, value, path, depth)
            == StateModel::of_missing(url),
        StateModel::of_missing(url).errors.len() == 0,
        StateModel::of_missing(url).missing == seq![url],
{
}

/// An identifier whose fragment is the path `/a/b` stands for the node that
/// is reached from the document compiled under its base by the segment `a`
/// and then the segment `b`.
pub proof fn law_resolve_by_path(
    scope: ScopeModel,
    uri: Seq<char>,
    base: Seq<char>,
    a: Seq<char>,
    b: Seq<char>,
)
    requires
        serialize_schema_path_spec(uri) == (base, Some(seq!['/'] + a + seq!['/'] + b)),
        !a.contains('/'),
        !b.contains('/'),
        scope.roots.dom().contains(base),
    ensures
        scope.resolve(uri) == (match child_spec(scope.roots[base].tree, a) {
            Some(below) => child_spec(below.tree, b),
            None => None,
        }),
{
    let fragment = seq!['/'] + a + seq!['/'] + b;
    assert(fragment.skip(1) == a + seq!['/'] + b);
    lemma_split_step(a, b, '/');
    lemma_split_whole(b, '/');
    let parts = split_spec(fragment.skip(1), '/');
    assert(parts == seq![a, b]);
    let root = scope.roots[base];
    assert(parts.drop_first() == seq![b]);
    assert(seq![b].drop_first() == Seq::<Seq<char>>::empty());
    match child_spec(root.tree, a) {
        Some(below) => {
            assert(descend(below, seq![b]) == (match child_spec(below.tree, b) {
                Some(last) => descend(last, Seq::<Seq<char>>::empty()),
                None => None,
            }));
        },
        None => {},
    }
}

proof fn lemma_join_from_the_front(parts: Seq<Seq<char>>, sep: Seq<char>)
    requires
        parts.len() >= 2,
    ensures
        crate::text::join_spec(parts, sep) == parts[0] + sep + crate::text::join_spec(
            parts.drop_first(),
            sep,
        ),
    decreases parts.len(),
{
    let rest = parts.drop_first();
    if parts.len() == 2 {
        assert(parts.drop_last().len() == 1);
        assert(crate::text::join_spec(parts.drop_last(), sep) == parts[0]);
        assert(rest.len() == 1);
        assert(crate::text::join_spec(rest, sep) == parts[1]);
    } else {
        let front = parts.drop_last();
        lemma_join_from_the_front(front, sep);
        assert(front.drop_first() == rest.drop_last());
        assert(rest.last() == parts.last());
        assert(front[0] == parts[0]);
        let middle = crate::text::join_spec(rest.drop_last(), sep);
        assert(crate::text::join_spec(rest, sep) == middle + sep + parts.last());
        assert((parts[0] + sep + middle) + sep + parts.last() == parts[0] + sep + (middle + sep
            + parts.last()));
    }
}

/// Segments without `/`, written with `/` between them and split at `/`
/// again, are the segments.
pub proof fn lemma_split_of_joined(parts: Seq<Seq<char>>)
    requires
        parts.len() > 0,
        forall|i: int| 0 <= i < parts.len() ==> !(#[trigger] parts[i]).contains('/'),
    ensures
        split_spec(crate::text::join_spec(parts, seq!['/']), '/') == parts,
    decreases parts.len(),
{
    if parts.len() == 1 {
        lemma_split_whole(parts[0], '/');
        assert(seq![parts[0]] == parts);
    } else {
        let rest = parts.drop_first();
        assert forall|i: int| 0 <= i < rest.len() implies !(#[trigger] rest[i]).contains('/') by {
            assert(rest[i] == parts[i + 1]);
        }
        lemma_split_of_joined(rest);
        lemma_join_from_the_front(parts, seq!['/']);
        lemma_split_step(parts[0], crate::text::join_spec(rest, seq!['/']), '/');
        assert(seq![parts[0]] + rest == parts);
    }
}

/// An identifier that is looked up by a base and by the path made of
/// `segments` stands for the node that is reached from the document compiled
/// under the base by the segments, one after the other.
pub proof fn law_path_leads_to_its_node(
    scope: ScopeModel,
    uri: Seq<char>,
    base: Seq<char>,
    segments: Seq<Seq<char>>,
)
    requires
        segments.len() > 0,
        forall|i: int| 0 <= i < segments.len() ==> !(#[trigger] segments[i]).contains('/'),
        serialize_schema_path_spec(uri) == (
            base,
            Some(seq!['/'] + crate::text::join_spec(segments, seq!['/'])),
        ),
        scope.roots.dom().contains(base),
    ensures
        scope.resolve(uri) == descend(scope.roots[base], segments),
{
    let fragment = seq!['/'] + crate::text::join_spec(segments, seq!['/']);
    assert(fragment.skip(1) == crate::text::join_spec(segments, seq!['/']));
    lemma_split_of_joined(segments);
}

/// What the node that `segments` lead to from the document under `base`
/// finds of `value`, with one reference less to follow; nothing where the
/// segments lead to no node.
pub open spec fn found_below(
    scope: ScopeModel,
    base: Seq<char>,
    segments: Seq<Seq<char>>,
    value: JsonValue,
    path: Seq<char>,
    depth: nat,
) -> Option<StateModel> {
    match descend(scope.roots[base], segments) {
        Some(node) => Some(validate_node(scope, node, value, path, (depth - 1) as nat)),
        None => None,
    }
}

/// Whether the identifier `uri` is looked up by `base` and by the path made
/// of `segments`, none of which holds a `/`.
pub open spec fn is_looked_up_by(uri: Seq<char>, base: Seq<char>, segments: Seq<Seq<char>>) -> bool {
    &&& segments.len() > 0
    &&& forall|i: int| 0 <= i < segments.len() ==> !(#[trigger] segments[i]).contains('/')
    &&& serialize_schema_path_spec(uri) == (
        base,
        Some(seq!['/'] + crate::text::join_spec(segments, seq!['/'])),
    )
}

/// What the alternatives of `allOf`, `anyOf` and `oneOf` find of a value is
/// what the nodes that they name find of it: where each alternative is
/// looked up by the base of a document of the scope and by a path, and one
/// reference at least is followed, each alternative finds what the node at
/// its path finds.
pub proof fn law_alternatives_are_the_nodes_below(
    scope: ScopeModel,
    schemes: Seq<Seq<char>>,
    base: Seq<char>,
    paths: Seq<Seq<Seq<char>>>,
    value: JsonValue,
    path: Seq<char>,
    depth: nat,
)
    requires
        depth > 0,
        scope.roots.dom().contains(base),
        paths.len() == schemes.len(),
        forall|i: int| 0 <= i < schemes.len() ==> is_looked_up_by(#[trigger] schemes[i], base, paths[i]),
    ensures
        branches(scope, schemes, value, path, depth).len() == schemes.len(),
        forall|i: int|
            0 <= i < schemes.len() ==> #[trigger] branches(scope, schemes, value, path, depth)[i]
                == found_below(scope, base, paths[i], value, path, depth),
    decreases schemes.len(),
{
    if schemes.len() > 0 {
        let n = schemes.len() - 1;
        assert forall|i: int| 0 <= i < schemes.drop_last().len() implies is_looked_up_by(
            #[trigger] schemes.drop_last()[i],
            base,
            paths.drop_last()[i],
        ) by {
            assert(is_looked_up_by(schemes[i], base, paths[i]));
        }
        law_alternatives_are_the_nodes_below(
            scope,
            schemes.drop_last(),
            base,
            paths.drop_last(),
            value,
            path,
            depth,
        );
        assert(is_looked_up_by(schemes[n], base, paths[n]));
        law_path_leads_to_its_node(scope, schemes[n], base, paths[n]);
        let all = branches(scope, schemes, value, path, depth);
        let front = branches(scope, schemes.drop_last(), value, path, depth);
        assert(all == front.push(crate::validators::follow(scope, schemes.last(), value, path, depth)));
        assert forall|i: int| 0 <= i < schemes.len() implies #[trigger] all[i] == found_below(
            scope,
            base,
            paths[i],
            value,
            path,
            depth,
        ) by {
            if i < n {
                assert(all[i] == front[i]);
                assert(paths.drop_last()[i] == paths[i]);
            }
        }
    }
}

/// An identifier whose fragment is a name stands for the node that declared
/// the identifier for itself: the first such node among the documents of the
/// scope, where no document was compiled under that very identifier.
pub proof fn law_resolve_by_name(scope: ScopeModel, uri: Seq<char>, name: Seq<char>)
    requires
        serialize_schema_path_spec(uri) == (name, None::<Seq<char>>),
        !scope.roots.dom().contains(name),
    ensures
        scope.resolve(uri) == first_declared(scope.order, name),
        scope.order.len() > 0 && scope.order[0].scopes.dom().contains(name) && descend(
            scope.order[0],
            scope.order[0].scopes[name],
        ) is Some ==> scope.resolve(uri) == descend(scope.order[0], scope.order[0].scopes[name]),
{
}

/// The kinds of value that a check looks at. Of a value of another kind it
/// reports nothing.
pub open spec fn applies_to(v: ValidatorModel, value: JsonValue) -> bool {
    match v {
        ValidatorModel::Required { .. } => value is Object,
        ValidatorModel::PropertyNames { .. } => value is Object,
        ValidatorModel::MaxProperties { .. } => value is Object,
        ValidatorModel::MinProperties { .. } => value is Object,
        ValidatorModel::UniqueItems => value is Array,
        ValidatorModel::MaxItems { .. } => value is Array,
        ValidatorModel::MinItems { .. } => value is Array,
        ValidatorModel::MaxLength { .. } => value is String,
        ValidatorModel::MinLength { .. } => value is String,
        ValidatorModel::DateTime => value is String,
        ValidatorModel::Pattern { .. } => value is String,
        ValidatorModel::MultipleOf { .. } => value is Number,
        ValidatorModel::Custom { .. } => true,
        ValidatorModel::Items { .. } => value is Array,
        ValidatorModel::Contains { .. } => value is Array,
        ValidatorModel::Properties { .. } => value is Object,
        ValidatorModel::Dependencies { .. } => value is Object,
        ValidatorModel::Maximum { .. } => value is Number,
        ValidatorModel::ExclusiveMaximum { .. } => value is Number,
        ValidatorModel::Minimum { .. } => value is Number,
        ValidatorModel::ExclusiveMinimum { .. } => value is Number,
        _ => true,
    }
}

/// A check that asks for a string, a number, an array or an object reports
/// nothing of a value of another kind.
pub proof fn law_other_kinds_pass(
    scope: ScopeModel,
    v: ValidatorModel,
    value: JsonValue,
    path: Seq<char>,
    depth: nat,
)
    requires
        !applies_to(v, value),
    ensures
        validate_one(scope, v, value, path, depth) == StateModel::empty(),
{
}

/// The error that a keyword gives for a node is a malformed one, at the path
/// of the node.
pub open spec fn is_malformed_at(r: crate::keywords::KeywordResultModel, ctx: WalkModel) -> bool {
    r matches Err(SchemaErrorModel::Malformed { path, .. }) && path == ctx.escaped_fragment()
}

/// A keyword whose value is of another kind than the keyword asks for makes
/// the node malformed.
pub proof fn law_wrong_kind_is_malformed(k: KeywordModel, def: JsonValue, ctx: WalkModel)
    ensures
        def.get("required"@) matches Some(v) && !(v is Array) ==> is_malformed_at(
            KeywordModel::Required.compile(def, ctx),
            ctx,
        ),
        def.get("enum"@) matches Some(v) && !(v is Array) ==> is_malformed_at(
            KeywordModel::Enum.compile(def, ctx),
            ctx,
        ),
        def.get("$ref"@) matches Some(v) && !(v is String) ==> is_malformed_at(
            KeywordModel::Ref.compile(def, ctx),
            ctx,
        ),
        def.get("allOf"@) matches Some(v) && !(v is Array) ==> is_malformed_at(
            KeywordModel::AllOf.compile(def, ctx),
            ctx,
        ),
        def.get("anyOf"@) matches Some(v) && !(v is Array) ==> is_malformed_at(
            KeywordModel::AnyOf.compile(def, ctx),
            ctx,
        ),
        def.get("oneOf"@) matches Some(v) && !(v is Array) ==> is_malformed_at(
            KeywordModel::OneOf.compile(def, ctx),
            ctx,
        ),
        def.get("not"@) matches Some(v) && !(v is Object || v is Bool) ==> is_malformed_at(
            KeywordModel::Not.compile(def, ctx),
            ctx,
        ),
        def.get("propertyNames"@) matches Some(v) && !(v is Object || v is Bool)
            ==> is_malformed_at(KeywordModel::PropertyNames.compile(def, ctx), ctx),
        def.get("uniqueItems"@) matches Some(v) && !(v is Bool) ==> is_malformed_at(
            KeywordModel::UniqueItems.compile(def, ctx),
            ctx,
        ),
        def.get("maxLength"@) matches Some(v) && !(v is Number) ==> is_malformed_at(
            KeywordModel::MaxLength.compile(def, ctx),
            ctx,
        ),
        def.get("minLength"@) matches Some(v) && !(v is Number) ==> is_malformed_at(
            KeywordModel::MinLength.compile(def, ctx),
            ctx,
        ),
        def.get("maxItems"@) matches Some(v) && !(v is Number) ==> is_malformed_at(
            KeywordModel::MaxItems.compile(def, ctx),
            ctx,
        ),
        def.get("minItems"@) matches Some(v) && !(v is Number) ==> is_malformed_at(
            KeywordModel::MinItems.compile(def, ctx),
            ctx,
        ),
        def.get("maxProperties"@) matches Some(v) && !(v is Number) ==> is_malformed_at(
            KeywordModel::MaxProperties.compile(def, ctx),
            ctx,
        ),
        def.get("minProperties"@) matches Some(v) && !(v is Number) ==> is_malformed_at(
            KeywordModel::MinProperties.compile(def, ctx),
            ctx,
        ),
        def.get("maximum"@) matches Some(v) && !(v is Number) ==> is_malformed_at(
            KeywordModel::Maximum.compile(def, ctx),
            ctx,
        ),
        def.get("minimum"@) matches Some(v) && !(v is Number) ==> is_malformed_at(
            KeywordModel::Minimum.compile(def, ctx),
            ctx,
        ),
        def.get("exclusiveMaximum"@) matches Some(v) && !(v is Number) ==> is_malformed_at(
            KeywordModel::ExclusiveMaximum.compile(def, ctx),
            ctx,
        ),
        def.get("exclusiveMinimum"@) matches Some(v) && !(v is Number) ==> is_malformed_at(
            KeywordModel::ExclusiveMinimum.compile(def, ctx),
            ctx,
        ),
        k matches KeywordModel::Format { formats } && def.get("format"@) matches Some(v) && !(v
            is String) ==> is_malformed_at(k.compile(def, ctx), ctx),
        def.get("type"@) matches Some(v) && !(v is String || v is Array) ==> is_malformed_at(
            KeywordModel::Type.compile(def, ctx),
            ctx,
        ),
        def.get("multipleOf"@) matches Some(v) && !(v is Number) ==> is_malformed_at(
            KeywordModel::MultipleOf.compile(def, ctx),
            ctx,
        ),
        def.get("pattern"@) matches Some(v) && !(v is String) ==> is_malformed_at(
            KeywordModel::Pattern.compile(def, ctx),
            ctx,
        ),
        def.get("contains"@) matches Some(v) && !(v is Object || v is Bool) ==> is_malformed_at(
            KeywordModel::Contains.compile(def, ctx),
            ctx,
        ),
        def.get("dependencies"@) matches Some(v) && !(v is Object) ==> is_malformed_at(
            KeywordModel::Dependencies.compile(def, ctx),
            ctx,
        ),
        def.get("items"@) matches Some(v) && !(v is Object || v is Bool || v is Array)
            ==> is_malformed_at(KeywordModel::Items.compile(def, ctx), ctx),
        def.get("properties"@) matches Some(v) && !(v is Object) ==> is_malformed_at(
            KeywordModel::Properties.compile(def, ctx),
            ctx,
        ),
{
}

/// Whatever a keyword of the library refuses, it refuses as malformed, at
/// the path of the node.
pub proof fn law_keywords_refuse_as_malformed(k: KeywordModel, def: JsonValue, ctx: WalkModel)
    requires
        k.is_built_in(),
    ensures
        k.compile(def, ctx) is Err ==> is_malformed_at(k.compile(def, ctx), ctx),
    decreases k,
{
    match k {
        KeywordModel::Exclusive(inner) => {
            law_keywords_refuse_as_malformed(*inner, def, ctx);
        },
        _ => {},
    }
}

/// The keys of a registry are shared out among its keywords: each key is
/// one of the keys of the keyword that answers to it, and that keyword
/// answers to all its keys.
pub open spec fn keys_are_shared_out(keywords: Map<Seq<char>, ConsumerModel>) -> bool {
    &&& forall|k: Seq<char>| #[trigger]
        keywords.dom().contains(k) ==> keywords[k].keys.contains(k)
    &&& forall|k: Seq<char>, other: Seq<char>|
        keywords.dom().contains(k) && #[trigger] keywords[k].keys.contains(other)
            ==> keywords.dom().contains(other) && keywords[other] == keywords[k]
}

/// Every keyword of the registry is one of the library's own, and none takes
/// the place of the others.
pub open spec fn all_are_plain(keywords: Map<Seq<char>, ConsumerModel>) -> bool {
    forall|k: Seq<char>| #[trigger] keywords.dom().contains(k) ==> keywords[k].keyword.is_plain()
}

proof fn lemma_refusal_is_reached(
    def: JsonValue,
    ctx: WalkModel,
    settings: SettingsModel,
    p: int,
    i: nat,
    remaining: Set<Seq<char>>,
    acc: Seq<crate::validators::ValidatorModel>,
    unknown: Seq<Seq<char>>,
)
    requires
        keys_are_shared_out(settings.keywords),
        all_are_plain(settings.keywords),
        i <= p < def.members().len(),
        remaining.contains(def.members()[p].key),
        settings.keywords.dom().contains(def.members()[p].key),
        settings.keywords[def.members()[p].key].keyword.compile(def, ctx) is Err,
    ensures
        is_malformed_at(refusal(keywords_from(def, ctx, settings, i, remaining, acc, unknown)), ctx),
    decreases def.members().len() - i,
{
    let failing = def.members()[p].key;
    let key = def.members()[i as int].key;
    if !remaining.contains(key) {
        lemma_refusal_is_reached(def, ctx, settings, p, i + 1, remaining, acc, unknown);
    } else if settings.keywords.dom().contains(key) {
        let consumer = settings.keywords[key];
        law_keywords_refuse_as_malformed(consumer.keyword, def, ctx);
        match consumer.keyword.compile(def, ctx) {
            Err(e) => {},
            Ok(found) => {
                assert(!consumer.keys.contains(failing)) by {
                    if consumer.keys.contains(failing) {
                        assert(settings.keywords[failing] == consumer);
                    }
                }
                assert(i < p);
                lemma_refusal_is_reached(
                    def,
                    ctx,
                    settings,
                    p,
                    i + 1,
                    crate::keywords::consumed(consumer.keys, remaining),
                    match found {
                        Some(v) => acc.push(v),
                        None => acc,
                    },
                    unknown,
                );
            },
        }
    } else {
        lemma_refusal_is_reached(
            def,
            ctx,
            settings,
            p,
            i + 1,
            remaining.remove(key),
            acc,
            if settings.ban_unknown_keywords {
                unknown.push(key)
            } else {
                unknown
            },
        );
    }
}

/// The error of a compilation of keywords, as a keyword's result.
pub open spec fn refusal(
    r: Result<Seq<crate::validators::ValidatorModel>, SchemaErrorModel>,
) -> KeywordResultModel {
    match r {
        Ok(_) => Ok(None),
        Err(e) => Err(e),
    }
}

/// A node with a key whose keyword refuses it does not compile: where the
/// keys of the registry are shared out among its keywords, which are the
/// library's own, and none of them is exclusive, the keywords of the node
/// compile to an error, which is a malformed one at the path of the node.
pub proof fn law_refused_keyword_fails_the_node(
    def: JsonValue,
    ctx: WalkModel,
    settings: SettingsModel,
    p: int,
)
    requires
        keys_are_shared_out(settings.keywords),
        all_are_plain(settings.keywords),
        0 <= p < def.members().len(),
        settings.keywords.dom().contains(def.members()[p].key),
        settings.keywords[def.members()[p].key].keyword.compile(def, ctx) is Err,
    ensures
        is_malformed_at(refusal(compile_keywords_spec(def, ctx, settings)), ctx),
{
    assert(keys_of(def.members()).contains(def.members()[p].key));
    lemma_refusal_is_reached(
        def,
        ctx,
        settings,
        p,
        0,
        keys_of(def.members()),
        Seq::empty(),
        Seq::empty(),
    );
}

/// A document whose own keywords do not compile does not compile, and
/// neither does a node below whose keywords do not.
pub proof fn law_refused_node_fails_the_compilation(
    raw: JsonValue,
    id: Seq<char>,
    url: Seq<char>,
    fragment: Seq<Seq<char>>,
    parent_key: Seq<char>,
    scopes: Map<Seq<char>, Seq<Seq<char>>>,
    settings: SettingsModel,
)
    requires
        crate::helpers::convert_boolean_schema_spec(raw) is Object,
    ensures
        compile_keywords_spec(
            crate::helpers::convert_boolean_schema_spec(raw),
            WalkModel { url: id, fragment: Seq::empty() },
            settings,
        ) is Err ==> compile_root_spec(raw, id, settings) is Err,
        compile_keywords_spec(
            crate::helpers::convert_boolean_schema_spec(raw),
            WalkModel { url, fragment },
            settings,
        ) is Err ==> crate::schema::compile_sub_spec(
            raw,
            url,
            fragment,
            parent_key,
            scopes,
            settings,
            true,
        ) is Err,
{
}

/// The path segments of the nodes `tree`, in order.
pub open spec fn segments_of(tree: Seq<crate::schema::ChildModel>) -> Seq<Seq<char>> {
    tree.map_values(|c: crate::schema::ChildModel| c.key)
}

/// The path segments of the members of the object `def` that the compiler
/// descends into, from member `i` on.
pub open spec fn walked_members(def: JsonValue, parent_key: Seq<char>, i: nat) -> Seq<Seq<char>>
    decreases def.members().len() - i,
{
    if i >= def.members().len() {
        Seq::empty()
    } else {
        let m = def.members()[i as int];
        if crate::schema::member_is_walked(parent_key, m) {
            seq![crate::helpers::encode_spec(m.key)] + walked_members(def, parent_key, i + 1)
        } else {
            walked_members(def, parent_key, i + 1)
        }
    }
}

/// The path segments of the elements of the array `def` that the compiler
/// descends into, from element `i` on.
pub open spec fn walked_elements(def: JsonValue, parent_key: Seq<char>, i: nat) -> Seq<Seq<char>>
    decreases def.elements().len() - i,
{
    if i >= def.elements().len() {
        Seq::empty()
    } else {
        let value = crate::schema::element_value(parent_key, def.elements()[i as int]);
        if value is Object || value is Array {
            seq![crate::text::decimal_spec(i)] + walked_elements(def, parent_key, i + 1)
        } else {
            walked_elements(def, parent_key, i + 1)
        }
    }
}

proof fn lemma_object_children_mirror(
    def: JsonValue,
    i: nat,
    url: Seq<char>,
    fragment: Seq<Seq<char>>,
    parent_key: Seq<char>,
    settings: SettingsModel,
    walked: crate::schema::Walked,
)
    ensures
        crate::schema::object_children(
            def,
            i,
            url,
            fragment,
            parent_key,
            settings,
            walked,
        ) matches Ok(w) ==> segments_of(w.tree) == segments_of(walked.tree) + walked_members(
            def,
            parent_key,
            i,
        ),
    decreases def.members().len() - i,
{
    if i < def.members().len() {
        let m = def.members()[i as int];
        if !crate::schema::member_is_walked(parent_key, m) {
            lemma_object_children_mirror(def, i + 1, url, fragment, parent_key, settings, walked);
        } else {
            let segment = crate::helpers::encode_spec(m.key);
            match crate::schema::compile_sub_spec(
                m.value,
                url,
                fragment.push(segment),
                m.key,
                walked.scopes,
                settings,
                crate::schema::member_is_schema(parent_key, m.key),
            ) {
                Err(e) => {},
                Ok(c) => {
                    let next = crate::schema::Walked {
                        tree: walked.tree.push(
                            crate::schema::ChildModel { key: segment, node: c.node },
                        ),
                        scopes: c.scopes,
                    };
                    lemma_object_children_mirror(
                        def,
                        i + 1,
                        url,
                        fragment,
                        parent_key,
                        settings,
                        next,
                    );
                    assert(segments_of(next.tree) == segments_of(walked.tree).push(segment));
                    assert(segments_of(walked.tree).push(segment) + walked_members(
                        def,
                        parent_key,
                        i + 1,
                    ) == segments_of(walked.tree) + (seq![segment] + walked_members(
                        def,
                        parent_key,
                        i + 1,
                    )));
                },
            }
        }
    } else {
        assert(segments_of(walked.tree) + Seq::<Seq<char>>::empty() == segments_of(walked.tree));
    }
}

proof fn lemma_array_children_mirror(
    def: JsonValue,
    i: nat,
    url: Seq<char>,
    fragment: Seq<Seq<char>>,
    parent_key: Seq<char>,
    settings: SettingsModel,
    walked: crate::schema::Walked,
)
    ensures
        crate::schema::array_children(
            def,
            i,
            url,
            fragment,
            parent_key,
            settings,
            walked,
        ) matches Ok(w) ==> segments_of(w.tree) == segments_of(walked.tree) + walked_elements(
            def,
            parent_key,
            i,
        ),
    decreases def.elements().len() - i,
{
    if i < def.elements().len() {
        let value = crate::schema::element_value(parent_key, def.elements()[i as int]);
        if !(value is Object || value is Array) {
            lemma_array_children_mirror(def, i + 1, url, fragment, parent_key, settings, walked);
        } else {
            let segment = crate::text::decimal_spec(i);
            match crate::schema::compile_sub_spec(
                value,
                url,
                fragment.push(segment),
                segment,
                walked.scopes,
                settings,
                true,
            ) {
                Err(e) => {},
                Ok(c) => {
                    let next = crate::schema::Walked {
                        tree: walked.tree.push(
                            crate::schema::ChildModel { key: segment, node: c.node },
                        ),
                        scopes: c.scopes,
                    };
                    lemma_array_children_mirror(
                        def,
                        i + 1,
                        url,
                        fragment,
                        parent_key,
                        settings,
                        next,
                    );
                    assert(segments_of(next.tree) == segments_of(walked.tree).push(segment));
                    assert(segments_of(walked.tree).push(segment) + walked_elements(
                        def,
                        parent_key,
                        i + 1,
                    ) == segments_of(walked.tree) + (seq![segment] + walked_elements(
                        def,
                        parent_key,
                        i + 1,
                    )));
                },
            }
        }
    } else {
        assert(segments_of(walked.tree) + Seq::<Seq<char>>::empty() == segments_of(walked.tree));
    }
}

/// The tree of a compiled node mirrors the document: the node keeps the
/// document it was compiled from, and the nodes below it stand under the
/// segments of the members or elements that can hold a schema and are not
/// data, in the order of the document.
pub proof fn law_tree_mirrors_the_document(
    raw: JsonValue,
    id: Seq<char>,
    url: Seq<char>,
    fragment: Seq<Seq<char>>,
    parent_key: Seq<char>,
    scopes: Map<Seq<char>, Seq<Seq<char>>>,
    settings: SettingsModel,
    is_schema: bool,
)
    ensures
        compile_root_spec(raw, id, settings) matches Ok(node) ==> {
            let def = crate::helpers::convert_boolean_schema_spec(raw);
            &&& node.source == def
            &&& node.id == Some(id)
            &&& segments_of(node.tree) == walked_members(def, Seq::empty(), 0)
        },
        crate::schema::compile_sub_spec(
            raw,
            url,
            fragment,
            parent_key,
            scopes,
            settings,
            is_schema,
        ) matches Ok(c) ==> {
            let def = crate::helpers::convert_boolean_schema_spec(raw);
            &&& c.node.source == def
            &&& segments_of(c.node.tree) == (match def {
                JsonValue::Object(_) => walked_members(def, parent_key, 0),
                JsonValue::Array(_) => walked_elements(def, parent_key, 0),
                _ => Seq::empty(),
            })
        },
{
    let def = crate::helpers::convert_boolean_schema_spec(raw);
    let start = crate::schema::Walked { tree: Seq::empty(), scopes: Map::empty() };
    lemma_object_children_mirror(def, 0, id, Seq::empty(), Seq::empty(), settings, start);
    assert(segments_of(start.tree) == Seq::<Seq<char>>::empty());
    assert(Seq::<Seq<char>>::empty() + walked_members(def, Seq::empty(), 0) == walked_members(
        def,
        Seq::empty(),
        0,
    ));
    let id_found = if is_schema {
        crate::helpers::parse_url_key_with_base_spec("$id"@, def, url)
    } else {
        Ok(None)
    };
    match id_found {
        Ok(found) => {
            let base = match found {
                Some(i) => i,
                None => url,
            };
            let begin = crate::schema::Walked { tree: Seq::empty(), scopes };
            lemma_object_children_mirror(def, 0, base, fragment, parent_key, settings, begin);
            lemma_array_children_mirror(def, 0, base, fragment, parent_key, settings, begin);
            assert(segments_of(begin.tree) == Seq::<Seq<char>>::empty());
            assert(Seq::<Seq<char>>::empty() + walked_members(def, parent_key, 0)
                == walked_members(def, parent_key, 0));
            assert(Seq::<Seq<char>>::empty() + walked_elements(def, parent_key, 0)
                == walked_elements(def, parent_key, 0));
        },
        Err(_) => {},
    }
}

/// A schema written as a boolean stands for an object that is named once
/// throughout.
proof fn lemma_converted_named_once(raw: JsonValue)
    requires
        named_once(raw),
    ensures
        named_once(crate::helpers::convert_boolean_schema_spec(raw)),
{
    let def = crate::helpers::convert_boolean_schema_spec(raw);
    match raw {
        JsonValue::Bool(true) => {
            assert(parts_named_once(def, 0));
        },
        JsonValue::Bool(false) => {
            let inner = JsonValue::Object(Seq::<MemberValue>::empty());
            assert(parts_named_once(inner, 0));
            assert(named_once(inner));
            assert(def.members()[0].value == inner);
            assert(parts_named_once(def, 0));
            assert(parts_named_once(def, 1));
        },
        _ => {},
    }
}

/// The decimal spelling of a number has a digit.
proof fn lemma_decimal_has_a_digit(n: nat)
    ensures
        crate::text::decimal_spec(n).len() >= 1,
    decreases n,
{
    if n >= 10 {
        lemma_decimal_has_a_digit(n / 10);
    }
}

/// Two numbers with the same decimal spelling are the same number.
pub proof fn lemma_decimal_tells_numbers_apart(a: nat, b: nat)
    requires
        crate::text::decimal_spec(a) == crate::text::decimal_spec(b),
    ensures
        a == b,
    decreases a,
{
    let x = crate::text::decimal_spec(a);
    let y = crate::text::decimal_spec(b);
    lemma_decimal_has_a_digit(a / 10);
    lemma_decimal_has_a_digit(b / 10);
    if a < 10 && b < 10 {
        assert(x[0] == y[0]);
    } else if a >= 10 && b >= 10 {
        let p = crate::text::decimal_spec(a / 10);
        let q = crate::text::decimal_spec(b / 10);
        assert(x.drop_last() == p);
        assert(y.drop_last() == q);
        assert(x.last() == y.last());
        lemma_decimal_tells_numbers_apart(a / 10, b / 10);
    } else {
        assert(x.len() == y.len());
    }
}

/// Whether `path` runs through `fragment` and on, and leads from the nodes
/// `tree`, which stand below `fragment`, to a node that declares `id`.
pub open spec fn leads_below(
    tree: Seq<crate::schema::ChildModel>,
    fragment: Seq<Seq<char>>,
    path: Seq<Seq<char>>,
    id: Seq<char>,
) -> bool {
    &&& path.len() > fragment.len()
    &&& path.take(fragment.len() as int) == fragment
    &&& child_spec(tree, path[fragment.len() as int]) matches Some(c) && leads_from(
        c,
        fragment.push(path[fragment.len() as int]),
        path,
        id,
    )
}

/// Whether `path` runs through `fragment` and leads from `node`, which stands
/// at `fragment`, to a node that declares `id`.
pub open spec fn leads_from(
    node: SchemaModel,
    fragment: Seq<Seq<char>>,
    path: Seq<Seq<char>>,
    id: Seq<char>,
) -> bool {
    &&& path.len() >= fragment.len()
    &&& path.take(fragment.len() as int) == fragment
    &&& descend(node, path.skip(fragment.len() as int)) matches Some(n) && n.id == Some(id)
}

/// A path that leads on below a node leads on from the node.
proof fn lemma_leads_below_is_from(
    node: SchemaModel,
    fragment: Seq<Seq<char>>,
    path: Seq<Seq<char>>,
    id: Seq<char>,
)
    requires
        leads_below(node.tree, fragment, path, id),
    ensures
        leads_from(node, fragment, path, id),
{
    let n = fragment.len() as int;
    let rest = path.skip(n);
    assert(rest[0] == path[n]);
    assert(rest.drop_first() == path.skip(n + 1));
    assert(fragment.push(path[n]).len() == n + 1);
}

/// What holds of the table of identifiers after a step of the compiler:
/// what was bound before is bound as it was, and every identifier that was
/// bound in the step is bound to a path that leads to the node that declares
/// it.
pub open spec fn bound_below(
    before: Map<Seq<char>, Seq<Seq<char>>>,
    after: Map<Seq<char>, Seq<Seq<char>>>,
    tree: Seq<crate::schema::ChildModel>,
    fragment: Seq<Seq<char>>,
) -> bool {
    &&& forall|k: Seq<char>| #[trigger]
        before.dom().contains(k) ==> after.dom().contains(k) && after[k] == before[k]
    &&& forall|k: Seq<char>| #[trigger]
        after.dom().contains(k) && !before.dom().contains(k) ==> leads_below(
            tree,
            fragment,
            after[k],
            k,
        )
}

/// As `bound_below`, for the node at `fragment` itself.
pub open spec fn bound_from(
    before: Map<Seq<char>, Seq<Seq<char>>>,
    after: Map<Seq<char>, Seq<Seq<char>>>,
    node: SchemaModel,
    fragment: Seq<Seq<char>>,
) -> bool {
    &&& forall|k: Seq<char>| #[trigger]
        before.dom().contains(k) ==> after.dom().contains(k) && after[k] == before[k]
    &&& forall|k: Seq<char>| #[trigger]
        after.dom().contains(k) && !before.dom().contains(k) ==> leads_from(
            node,
            fragment,
            after[k],
            k,
        )
}

/// A node that is pushed behind others is the one found under its segment.
proof fn lemma_child_pushed(
    tree: Seq<crate::schema::ChildModel>,
    child: crate::schema::ChildModel,
    segment: Seq<char>,
)
    ensures
        child_spec(tree.push(child), segment) == if child.key == segment {
            Some(child.node)
        } else {
            child_spec(tree, segment)
        },
{
    assert(tree.push(child).drop_last() == tree);
    assert(tree.push(child).last() == child);
}

proof fn lemma_object_children_lead(
    def: JsonValue,
    i: nat,
    url: Seq<char>,
    fragment: Seq<Seq<char>>,
    parent_key: Seq<char>,
    settings: SettingsModel,
    walked: crate::schema::Walked,
)
    requires
        named_once(def),
        def is Object,
    ensures
        crate::schema::object_children(
            def,
            i,
            url,
            fragment,
            parent_key,
            settings,
            walked,
        ) matches Ok(w) ==> {
            &&& bound_below(walked.scopes, w.scopes, w.tree, fragment)
            &&& forall|s: Seq<char>|
                (forall|j: int|
                    i <= j < def.members().len() ==> s != crate::helpers::encode_spec(
                        (#[trigger] def.members()[j]).key,
                    )) ==> #[trigger] child_spec(w.tree, s) == child_spec(walked.tree, s)
        },
    decreases crate::json::weight(def), 0nat, def.members().len() - i,
{
    if i < def.members().len() {
        let m = def.members()[i as int];
        if !crate::schema::member_is_walked(parent_key, m) {
            lemma_object_children_lead(def, i + 1, url, fragment, parent_key, settings, walked);
        } else {
            let segment = crate::helpers::encode_spec(m.key);
            crate::json::lemma_member_weight(def, i as int);
            lemma_part_named_once(def, def.members().len(), i as int);
            lemma_node_leads(
                m.value,
                url,
                fragment.push(segment),
                m.key,
                walked.scopes,
                settings,
                crate::schema::member_is_schema(parent_key, m.key),
            );
            match crate::schema::compile_sub_spec(
                m.value,
                url,
                fragment.push(segment),
                m.key,
                walked.scopes,
                settings,
                crate::schema::member_is_schema(parent_key, m.key),
            ) {
                Err(e) => {},
                Ok(c) => {
                    let child = crate::schema::ChildModel { key: segment, node: c.node };
                    let next = crate::schema::Walked {
                        tree: walked.tree.push(child),
                        scopes: c.scopes,
                    };
                    lemma_object_children_lead(
                        def,
                        i + 1,
                        url,
                        fragment,
                        parent_key,
                        settings,
                        next,
                    );
                    match crate::schema::object_children(
                        def,
                        i + 1,
                        url,
                        fragment,
                        parent_key,
                        settings,
                        next,
                    ) {
                        Err(e) => {},
                        Ok(w) => {
                            assert forall|j: int| i + 1 <= j < def.members().len() implies segment
                                != crate::helpers::encode_spec(
                                (#[trigger] def.members()[j]).key,
                            ) by {
                                assert(def.members()[i as int].key == m.key);
                            }
                            lemma_step_leads(walked, c, child, w, fragment);
                            assert forall|s: Seq<char>|
                                (forall|j: int|
                                    i <= j < def.members().len() ==> s
                                        != crate::helpers::encode_spec(
                                        (#[trigger] def.members()[j]).key,
                                    )) implies #[trigger] child_spec(w.tree, s) == child_spec(
                                walked.tree,
                                s,
                            ) by {
                                assert(s != crate::helpers::encode_spec(
                                    def.members()[i as int].key,
                                ));
                                lemma_child_pushed(walked.tree, child, s);
                            }
                        },
                    }
                },
            }
        }
    }
}

/// One step of the compiler over the nodes below a node: `child` was
/// compiled and pushed behind those of `walked`, and `after` is what came of
/// compiling the rest.
proof fn lemma_step_leads(
    walked: crate::schema::Walked,
    c: crate::schema::Compiled,
    child: crate::schema::ChildModel,
    after: crate::schema::Walked,
    fragment: Seq<Seq<char>>,
)
    requires
        child.node == c.node,
        bound_from(walked.scopes, c.scopes, c.node, fragment.push(child.key)),
        bound_below(c.scopes, after.scopes, after.tree, fragment),
        child_spec(after.tree, child.key) == child_spec(walked.tree.push(child), child.key),
    ensures
        bound_below(walked.scopes, after.scopes, after.tree, fragment),
{
    lemma_child_pushed(walked.tree, child, child.key);
    assert forall|k: Seq<char>| #[trigger]
        after.scopes.dom().contains(k) && !walked.scopes.dom().contains(k) implies leads_below(
        after.tree,
        fragment,
        after.scopes[k],
        k,
    ) by {
        if c.scopes.dom().contains(k) {
            let path = c.scopes[k];
            let inner = fragment.push(child.key);
            assert(leads_from(c.node, inner, path, k));
            assert(path.take(inner.len() as int) == inner);
            assert(path[fragment.len() as int] == inner[fragment.len() as int]);
            assert(path.take(fragment.len() as int) == inner.take(fragment.len() as int));
            assert(inner.take(fragment.len() as int) == fragment);
            assert(fragment.push(path[fragment.len() as int]) == inner);
        }
    }
}

proof fn lemma_array_children_lead(
    def: JsonValue,
    i: nat,
    url: Seq<char>,
    fragment: Seq<Seq<char>>,
    parent_key: Seq<char>,
    settings: SettingsModel,
    walked: crate::schema::Walked,
)
    requires
        named_once(def),
        def is Array,
    ensures
        crate::schema::array_children(
            def,
            i,
            url,
            fragment,
            parent_key,
            settings,
            walked,
        ) matches Ok(w) ==> {
            &&& bound_below(walked.scopes, w.scopes, w.tree, fragment)
            &&& forall|s: Seq<char>|
                (forall|j: nat| i <= j ==> s != #[trigger] crate::text::decimal_spec(j))
                    ==> #[trigger] child_spec(w.tree, s) == child_spec(walked.tree, s)
        },
    decreases crate::json::weight(def), 0nat, def.elements().len() - i,
{
    if i < def.elements().len() {
        let value = crate::schema::element_value(parent_key, def.elements()[i as int]);
        if !(value is Object || value is Array) {
            lemma_array_children_lead(def, i + 1, url, fragment, parent_key, settings, walked);
        } else {
            let segment = crate::text::decimal_spec(i);
            crate::json::lemma_element_weight(def, i as int);
            crate::schema::lemma_convert_weight(def.elements()[i as int]);
            lemma_part_named_once(def, def.elements().len(), i as int);
            lemma_converted_named_once(def.elements()[i as int]);
            lemma_node_leads(value, url, fragment.push(segment), segment, walked.scopes, settings, true);
            match crate::schema::compile_sub_spec(
                value,
                url,
                fragment.push(segment),
                segment,
                walked.scopes,
                settings,
                true,
            ) {
                Err(e) => {},
                Ok(c) => {
                    let child = crate::schema::ChildModel { key: segment, node: c.node };
                    let next = crate::schema::Walked {
                        tree: walked.tree.push(child),
                        scopes: c.scopes,
                    };
                    lemma_array_children_lead(
                        def,
                        i + 1,
                        url,
                        fragment,
                        parent_key,
                        settings,
                        next,
                    );
                    match crate::schema::array_children(
                        def,
                        i + 1,
                        url,
                        fragment,
                        parent_key,
                        settings,
                        next,
                    ) {
                        Err(e) => {},
                        Ok(w) => {
                            assert forall|j: nat| i + 1 <= j implies segment
                                != #[trigger] crate::text::decimal_spec(j) by {
                                if segment == crate::text::decimal_spec(j) {
                                    lemma_decimal_tells_numbers_apart(i, j);
                                }
                            }
                            lemma_step_leads(walked, c, child, w, fragment);
                            assert forall|s: Seq<char>|
                                (forall|j: nat|
                                    i <= j ==> s != #[trigger] crate::text::decimal_spec(
                                        j,
                                    )) implies #[trigger] child_spec(w.tree, s) == child_spec(
                                walked.tree,
                                s,
                            ) by {
                                assert(s != crate::text::decimal_spec(i));
                                lemma_child_pushed(walked.tree, child, s);
                            }
                        },
                    }
                },
            }
        }
    }
}

proof fn lemma_node_leads(
    raw: JsonValue,
    url: Seq<char>,
    fragment: Seq<Seq<char>>,
    parent_key: Seq<char>,
    scopes: Map<Seq<char>, Seq<Seq<char>>>,
    settings: SettingsModel,
    is_schema: bool,
)
    requires
        named_once(raw),
    ensures
        crate::schema::compile_sub_spec(
            raw,
            url,
            fragment,
            parent_key,
            scopes,
            settings,
            is_schema,
        ) matches Ok(c) ==> bound_from(scopes, c.scopes, c.node, fragment),
    decreases crate::json::weight(raw), 1nat, 0nat,
{
    let def = crate::helpers::convert_boolean_schema_spec(raw);
    lemma_converted_named_once(raw);
    crate::schema::lemma_convert_weight(raw);
    let id_found = if is_schema {
        crate::helpers::parse_url_key_with_base_spec("$id"@, def, url)
    } else {
        Ok(None)
    };
    match (
        id_found,
        crate::schema::compile_sub_spec(raw, url, fragment, parent_key, scopes, settings, is_schema),
    ) {
        (Ok(id), Ok(c)) => {
            let base = match id {
                Some(i) => i,
                None => url,
            };
            let start = crate::schema::Walked { tree: Seq::empty(), scopes };
            if def is Object {
                lemma_object_children_lead(def, 0, base, fragment, parent_key, settings, start);
            } else if def is Array {
                lemma_array_children_lead(def, 0, base, fragment, parent_key, settings, start);
            }
            let children = match def {
                JsonValue::Object(_) => crate::schema::object_children(
                    def,
                    0,
                    base,
                    fragment,
                    parent_key,
                    settings,
                    start,
                ),
                JsonValue::Array(_) => crate::schema::array_children(
                    def,
                    0,
                    base,
                    fragment,
                    parent_key,
                    settings,
                    start,
                ),
                _ => Ok(start),
            };
            let walked = children->Ok_0;
            assert(children is Ok);
            assert(c.node.tree == walked.tree);
            assert(c.node.id == id);
            assert(bound_below(scopes, walked.scopes, walked.tree, fragment));
            assert forall|k: Seq<char>| #[trigger]
                c.scopes.dom().contains(k) && !scopes.dom().contains(k) implies leads_from(
                c.node,
                fragment,
                c.scopes[k],
                k,
            ) by {
                if walked.scopes.dom().contains(k) {
                    assert(c.scopes[k] == walked.scopes[k]);
                    lemma_leads_below_is_from(c.node, fragment, c.scopes[k], k);
                } else {
                    assert(id == Some(k));
                    assert(c.scopes[k] == fragment);
                    assert(fragment.take(fragment.len() as int) == fragment);
                    assert(fragment.skip(fragment.len() as int).len() == 0);
                }
            }
        },
        _ => {},
    }
}

/// Every identifier that a compiled document holds in its table is bound to
/// a path that leads, from the root of the tree, to the node that declared
/// the identifier, where no object of the document has two members that are
/// written as the same path segment.
pub proof fn law_identifiers_lead_to_their_nodes(
    raw: JsonValue,
    id: Seq<char>,
    settings: SettingsModel,
    declared: Seq<char>,
)
    requires
        named_once(raw),
    ensures
        compile_root_spec(raw, id, settings) matches Ok(root) ==> {
            root.scopes.dom().contains(declared) ==> {
                &&& root.resolve(declared) is Some
                &&& root.resolve(declared)->Some_0.id == Some(declared)
            }
        },
{
    let def = crate::helpers::convert_boolean_schema_spec(raw);
    lemma_converted_named_once(raw);
    let start = crate::schema::Walked { tree: Seq::empty(), scopes: Map::empty() };
    if def is Object {
        lemma_object_children_lead(def, 0, id, Seq::empty(), Seq::empty(), settings, start);
    }
    match compile_root_spec(raw, id, settings) {
        Ok(root) => {
            if root.scopes.dom().contains(declared) {
                let path = root.scopes[declared];
                assert(leads_below(root.tree, Seq::empty(), path, declared));
                lemma_leads_below_is_from(root, Seq::empty(), path, declared);
                assert(path.skip(0) == path);
            }
        },
        Err(_) => {},
    }
}

/// Whether no two of the nodes `tree` stand under the same path segment.
pub open spec fn no_segment_twice(tree: Seq<crate::schema::ChildModel>) -> bool {
    forall|i: int, j: int|
        #![trigger tree[i], tree[j]]
        0 <= i < j < tree.len() ==> tree[i].key != tree[j].key
}

/// Whether `s` is the path segment of one of the members of `def` from
/// member `i` on.
pub open spec fn is_segment_from(def: JsonValue, i: nat, s: Seq<char>) -> bool {
    exists|j: int|
        i <= j < def.members().len() && s == crate::helpers::encode_spec(
            (#[trigger] def.members()[j]).key,
        )
}

/// Whether `s` is the decimal spelling of a number from `i` on.
pub open spec fn is_spelling_from(i: nat, s: Seq<char>) -> bool {
    exists|j: nat| i <= j && s == #[trigger] crate::text::decimal_spec(j)
}

proof fn lemma_walked_members_differ(def: JsonValue, parent_key: Seq<char>, i: nat)
    requires
        segments_differ(def.members()),
    ensures
        forall|a: int|
            0 <= a < walked_members(def, parent_key, i).len() ==> is_segment_from(
                def,
                i,
                #[trigger] walked_members(def, parent_key, i)[a],
            ),
        forall|a: int, b: int|
            #![trigger walked_members(def, parent_key, i)[a], walked_members(def, parent_key, i)[b]]
            0 <= a < b < walked_members(def, parent_key, i).len() ==> walked_members(
                def,
                parent_key,
                i,
            )[a] != walked_members(def, parent_key, i)[b],
    decreases def.members().len() - i,
{
    if i < def.members().len() {
        lemma_walked_members_differ(def, parent_key, i + 1);
        let m = def.members()[i as int];
        let rest = walked_members(def, parent_key, i + 1);
        let all = walked_members(def, parent_key, i);
        let segment = crate::helpers::encode_spec(m.key);
        assert forall|a: int| 0 <= a < rest.len() implies is_segment_from(def, i, #[trigger] rest[a])
            && rest[a] != segment by {
            assert(is_segment_from(def, i + 1, rest[a]));
            let j = choose|j: int|
                i + 1 <= j < def.members().len() && rest[a] == crate::helpers::encode_spec(
                    (#[trigger] def.members()[j]).key,
                );
            assert(def.members()[j].key == def.members()[j].key);
            assert(crate::helpers::encode_spec(def.members()[i as int].key)
                != crate::helpers::encode_spec(def.members()[j].key));
        }
        if crate::schema::member_is_walked(parent_key, m) {
            assert(all == seq![segment] + rest);
            assert(is_segment_from(def, i, segment));
            assert forall|a: int| 0 <= a < all.len() implies is_segment_from(
                def,
                i,
                #[trigger] all[a],
            ) by {
                if a > 0 {
                    assert(all[a] == rest[a - 1]);
                }
            }
            assert forall|a: int, b: int|
                #![trigger all[a], all[b]]
                0 <= a < b < all.len() implies all[a] != all[b] by {
                assert(all[b] == rest[b - 1]);
                if a > 0 {
                    assert(all[a] == rest[a - 1]);
                }
            }
        }
    }
}

proof fn lemma_walked_elements_differ(def: JsonValue, parent_key: Seq<char>, i: nat)
    ensures
        forall|a: int|
            0 <= a < walked_elements(def, parent_key, i).len() ==> is_spelling_from(
                i,
                #[trigger] walked_elements(def, parent_key, i)[a],
            ),
        forall|a: int, b: int|
            #![trigger walked_elements(def, parent_key, i)[a], walked_elements(def, parent_key, i)[b]]
            0 <= a < b < walked_elements(def, parent_key, i).len() ==> walked_elements(
                def,
                parent_key,
                i,
            )[a] != walked_elements(def, parent_key, i)[b],
    decreases def.elements().len() - i,
{
    if i < def.elements().len() {
        lemma_walked_elements_differ(def, parent_key, i + 1);
        let value = crate::schema::element_value(parent_key, def.elements()[i as int]);
        let rest = walked_elements(def, parent_key, i + 1);
        let all = walked_elements(def, parent_key, i);
        let segment = crate::text::decimal_spec(i);
        assert forall|a: int| 0 <= a < rest.len() implies is_spelling_from(i, #[trigger] rest[a])
            && rest[a] != segment by {
            assert(is_spelling_from(i + 1, rest[a]));
            let j = choose|j: nat| i + 1 <= j && rest[a] == #[trigger] crate::text::decimal_spec(j);
            if rest[a] == segment {
                lemma_decimal_tells_numbers_apart(i, j);
            }
        }
        if value is Object || value is Array {
            assert(all == seq![segment] + rest);
            assert(is_spelling_from(i, segment));
            assert forall|a: int| 0 <= a < all.len() implies is_spelling_from(
                i,
                #[trigger] all[a],
            ) by {
                if a > 0 {
                    assert(all[a] == rest[a - 1]);
                }
            }
            assert forall|a: int, b: int|
                #![trigger all[a], all[b]]
                0 <= a < b < all.len() implies all[a] != all[b] by {
                assert(all[b] == rest[b - 1]);
                if a > 0 {
                    assert(all[a] == rest[a - 1]);
                }
            }
        }
    }
}

/// Where the segments differ, so do the nodes that stand under them.
proof fn lemma_segments_tell_nodes_apart(tree: Seq<crate::schema::ChildModel>)
    requires
        forall|a: int, b: int|
            #![trigger segments_of(tree)[a], segments_of(tree)[b]]
            0 <= a < b < segments_of(tree).len() ==> segments_of(tree)[a] != segments_of(tree)[b],
    ensures
        no_segment_twice(tree),
{
    assert forall|i: int, j: int|
        #![trigger tree[i], tree[j]]
        0 <= i < j < tree.len() implies tree[i].key != tree[j].key by {
        assert(segments_of(tree)[i] == tree[i].key);
        assert(segments_of(tree)[j] == tree[j].key);
    }
}

/// No two of the nodes directly below a compiled node stand under the same
/// path segment, where no two members of the document of the node are
/// written as the same segment. Every node of a tree is compiled from its
/// own document, so this holds of each of them.
pub proof fn law_segments_stand_once(
    raw: JsonValue,
    id: Seq<char>,
    url: Seq<char>,
    fragment: Seq<Seq<char>>,
    parent_key: Seq<char>,
    scopes: Map<Seq<char>, Seq<Seq<char>>>,
    settings: SettingsModel,
    is_schema: bool,
)
    requires
        segments_differ(crate::helpers::convert_boolean_schema_spec(raw).members()),
    ensures
        compile_root_spec(raw, id, settings) matches Ok(node) ==> no_segment_twice(node.tree),
        crate::schema::compile_sub_spec(
            raw,
            url,
            fragment,
            parent_key,
            scopes,
            settings,
            is_schema,
        ) matches Ok(c) ==> no_segment_twice(c.node.tree),
{
    let def = crate::helpers::convert_boolean_schema_spec(raw);
    law_tree_mirrors_the_document(raw, id, url, fragment, parent_key, scopes, settings, is_schema);
    lemma_walked_members_differ(def, Seq::empty(), 0);
    lemma_walked_members_differ(def, parent_key, 0);
    lemma_walked_elements_differ(def, parent_key, 0);
    match compile_root_spec(raw, id, settings) {
        Ok(node) => {
            lemma_segments_tell_nodes_apart(node.tree);
        },
        Err(_) => {},
    }
    match crate::schema::compile_sub_spec(
        raw,
        url,
        fragment,
        parent_key,
        scopes,
        settings,
        is_schema,
    ) {
        Ok(c) => {
            lemma_segments_tell_nodes_apart(c.node.tree);
        },
        Err(_) => {},
    }
}

/// A letter of the English alphabet or a digit.
pub open spec fn is_letter_or_digit(c: char) -> bool {
    ('a' <= c && c <= 'z') || ('A' <= c && c <= 'Z') || ('0' <= c && c <= '9')
}

/// Whether `s` is made of letters and digits alone.
pub open spec fn is_plain_text(s: Seq<char>) -> bool {
    forall|i: int| 0 <= i < s.len() ==> is_letter_or_digit(#[trigger] s[i])
}

proof fn lemma_plain_text_is_not_escaped(s: Seq<char>)
    requires
        is_plain_text(s),
    ensures
        crate::helpers::escape_pointer(s) == s,
    decreases s.len(),
{
    if s.len() > 0 {
        assert(is_letter_or_digit(s[s.len() - 1]));
        assert forall|i: int| 0 <= i < s.drop_last().len() implies is_letter_or_digit(
            #[trigger] s.drop_last()[i],
        ) by {
            assert(s.drop_last()[i] == s[i]);
        }
        lemma_plain_text_is_not_escaped(s.drop_last());
        assert(s.drop_last() + seq![s.last()] == s);
    } else {
        assert(s == Seq::<char>::empty());
    }
}

proof fn lemma_plain_bytes_are_written_as_they_are(s: Seq<char>, bytes: Seq<u8>, n: int)
    requires
        is_plain_text(s),
        bytes.len() == s.len(),
        forall|i: int| 0 <= i < s.len() ==> s[i] as u8 == #[trigger] bytes[i],
        0 <= n <= s.len(),
    ensures
        crate::helpers::percent_encoded(bytes.take(n)) == s.take(n),
    decreases n,
{
    if n > 0 {
        lemma_plain_bytes_are_written_as_they_are(s, bytes, n - 1);
        assert(bytes.take(n).drop_last() == bytes.take(n - 1));
        assert(bytes.take(n).last() == bytes[n - 1]);
        let c = s[n - 1];
        let b = bytes[n - 1];
        assert(is_letter_or_digit(c));
        assert(b == c as u8);
        assert(b as char == c);
        assert(!crate::helpers::is_percent_encoded(b));
        assert(s.take(n - 1) + seq![c] == s.take(n));
    } else {
        assert(bytes.take(0) == Seq::<u8>::empty());
        assert(s.take(0) == Seq::<char>::empty());
    }
}

/// A key made of letters and digits alone is its own path segment.
pub proof fn law_plain_key_is_its_segment(key: Seq<char>)
    requires
        is_plain_text(key),
    ensures
        crate::helpers::encode_spec(key) == key,
{
    lemma_plain_text_is_not_escaped(key);
    assert(vstd::utf8::is_ascii_chars(key)) by {
        assert forall|i: int| 0 <= i < key.len() implies '\0' <= #[trigger] key[i] <= '\u{7f}' by {
            assert(is_letter_or_digit(key[i]));
        }
    }
    vstd::utf8::is_ascii_chars_encode_utf8(key);
    let bytes = vstd::utf8::encode_utf8(key);
    lemma_plain_bytes_are_written_as_they_are(key, bytes, key.len() as int);
    assert(bytes.take(key.len() as int) == bytes);
    assert(key.take(key.len() as int) == key);
}

/// Whether the registry binds the key `not` to the keyword `not`, which
/// answers to no other key.
pub open spec fn not_is_known(keywords: Map<Seq<char>, ConsumerModel>) -> bool {
    keywords.dom().contains("not"@) && keywords["not"@] == (ConsumerModel {
        keys: seq!["not"@],
        keyword: KeywordModel::Not,
    })
}

/// What the schema `{}` compiles to below another node: a node without
/// identifier, nodes below it or checks.
pub open spec fn empty_node() -> SchemaModel {
    SchemaModel {
        id: None,
        schema: None,
        source: JsonValue::Object(Seq::empty()),
        tree: Seq::empty(),
        validators: Seq::empty(),
        scopes: Map::empty(),
    }
}

/// What the schema `false` compiles to under the identifier `id`: a node
/// whose one check is the keyword `not` with the identifier of the node
/// under `not`, which is the empty node.
pub open spec fn false_node(id: Seq<char>) -> SchemaModel {
    SchemaModel {
        id: Some(id),
        schema: None,
        source: crate::helpers::convert_boolean_schema_spec(JsonValue::Bool(false)),
        tree: seq![crate::schema::ChildModel { key: "not"@, node: empty_node() }],
        validators: seq![
            ValidatorModel::Not {
                url: crate::helpers::alter_fragment_path_spec(id, seq!['/'] + "not"@),
            },
        ],
        scopes: Map::empty(),
    }
}

/// The schema `false` compiles, with every registry that knows the keyword
/// `not`, to the node `false_node`.
pub proof fn law_false_compiles(id: Seq<char>, settings: SettingsModel)
    requires
        not_is_known(settings.keywords),
    ensures
        compile_root_spec(JsonValue::Bool(false), id, settings) == Ok::<
            SchemaModel,
            SchemaErrorModel,
        >(false_node(id)),
{
    reveal_strlit("not");
    reveal_strlit("$schema");
    reveal_strlit("$id");
    reveal_strlit("enum");
    reveal_strlit("const");
    reveal_strlit("required");
    reveal_strlit("type");
    reveal_strlit("default");
    reveal_strlit("examples");
    reveal_strlit("/");
    assert("not"@.len() == 3);
    assert("$schema"@.len() == 7);
    assert("$id"@.len() == 3);
    assert("$id"@[0] == '$');
    assert("not"@[0] == 'n');
    assert("enum"@.len() == 4);
    assert("const"@.len() == 5);
    assert("required"@.len() == 8);
    assert("type"@.len() == 4);
    assert("default"@.len() == 7);
    assert("examples"@.len() == 8);
    assert(!crate::schema::is_final_key("not"@));
    let inner = JsonValue::Object(Seq::<MemberValue>::empty());
    let def = crate::helpers::convert_boolean_schema_spec(JsonValue::Bool(false));
    let m = MemberValue { key: "not"@, value: inner };
    assert(def.members() == seq![m]);
    assert(def.members()[0] == m);
    assert(is_plain_text("not"@)) by {
        assert("not"@[1] == 'o');
        assert("not"@[2] == 't');
    }
    law_plain_key_is_its_segment("not"@);
    let segment = crate::helpers::encode_spec("not"@);
    // The node under `not`.
    reveal_with_fuel(crate::json::last_index, 3);
    assert(inner.members().len() == 0);
    assert(crate::json::lookup(inner.members(), "$id"@) is None);
    assert(crate::json::lookup(inner.members(), "$schema"@) is None);
    assert(def.members().drop_last() == Seq::<MemberValue>::empty());
    assert(crate::json::lookup(def.members(), "$schema"@) is None);
    assert(crate::json::lookup(def.members(), "not"@) == Some(inner));
    let fragment = Seq::<Seq<char>>::empty().push(segment);
    let none = Map::<Seq<char>, Seq<Seq<char>>>::empty();
    let is_schema = crate::schema::member_is_schema(Seq::empty(), "not"@);
    let below = crate::schema::compile_sub_spec(inner, id, fragment, "not"@, none, settings, is_schema);
    assert(crate::helpers::convert_boolean_schema_spec(inner) == inner);
    assert(crate::schema::first_banned(Seq::empty()) is None);
    assert(compile_keywords_spec(inner, WalkModel { url: id, fragment }, settings) == Ok::<
        Seq<ValidatorModel>,
        SchemaErrorModel,
    >(Seq::empty()));
    assert(crate::schema::object_children(
        inner,
        0,
        id,
        fragment,
        "not"@,
        settings,
        crate::schema::Walked { tree: Seq::empty(), scopes: none },
    ) == Ok::<crate::schema::Walked, SchemaErrorModel>(
        crate::schema::Walked { tree: Seq::empty(), scopes: none },
    ));
    assert(below == Ok::<crate::schema::Compiled, SchemaErrorModel>(
        crate::schema::Compiled { node: empty_node(), scopes: none },
    ));
    // The nodes below the root.
    let start = crate::schema::Walked { tree: Seq::empty(), scopes: none };
    let after = crate::schema::Walked {
        tree: start.tree.push(crate::schema::ChildModel { key: segment, node: empty_node() }),
        scopes: none,
    };
    assert(crate::schema::member_is_walked(Seq::empty(), m));
    assert(crate::schema::object_children(def, 1, id, Seq::empty(), Seq::empty(), settings, after)
        == Ok::<crate::schema::Walked, SchemaErrorModel>(after));
    assert(crate::schema::object_children(def, 0, id, Seq::empty(), Seq::empty(), settings, start)
        == Ok::<crate::schema::Walked, SchemaErrorModel>(after));
    assert(after.tree == seq![crate::schema::ChildModel { key: "not"@, node: empty_node() }]);
    // The checks of the root.
    let ctx = WalkModel { url: id, fragment: Seq::empty() };
    assert(ctx.escaped_fragment() == Seq::<char>::empty());
    assert(ctx.escaped_fragment() + seq!['/'] + "not"@ == seq!['/'] + "not"@);
    let check = ValidatorModel::Not {
        url: crate::helpers::alter_fragment_path_spec(id, seq!['/'] + "not"@),
    };
    assert(KeywordModel::Not.compile(def, ctx) == Ok::<Option<ValidatorModel>, SchemaErrorModel>(
        Some(check),
    ));
    assert(keys_of(def.members()).contains("not"@)) by {
        assert(def.members()[0].key == "not"@);
    }
    let remaining = crate::keywords::consumed(seq!["not"@], keys_of(def.members()));
    assert(keywords_from(def, ctx, settings, 1, remaining, Seq::empty().push(check), Seq::empty())
        == Ok::<Seq<ValidatorModel>, SchemaErrorModel>(seq![check]));
    assert(compile_keywords_spec(def, ctx, settings) == Ok::<Seq<ValidatorModel>, SchemaErrorModel>(
        seq![check],
    ));
}

/// The schema `false`, and the schema `{"not": {}}`, find one violation,
/// `not`, in every value, whatever the identifier and the scope: where the
/// schema was compiled with a registry that knows the keyword `not` and
/// stands in the scope under `base`, where the identifier of its node under
/// `not` is looked up by `base` and the path `/not`, and where one reference
/// at least is followed. So the two validate every value alike, also in two
/// scopes and under two identifiers.
pub proof fn law_false_rejects_everything(
    id: Seq<char>,
    base: Seq<char>,
    settings: SettingsModel,
    scope: ScopeModel,
    value: JsonValue,
    path: Seq<char>,
    depth: nat,
)
    requires
        not_is_known(settings.keywords),
        scope.roots.dom().contains(base),
        scope.roots[base] == false_node(id),
        serialize_schema_path_spec(
            crate::helpers::alter_fragment_path_spec(id, seq!['/'] + "not"@),
        ) == (base, Some(seq!['/'] + "not"@)),
        depth > 0,
    ensures
        compile_root_spec(JsonValue::Bool(false), id, settings) == Ok::<
            SchemaModel,
            SchemaErrorModel,
        >(scope.roots[base]),
        compile_root_spec(
            JsonValue::Object(
                seq![MemberValue { key: "not"@, value: JsonValue::Object(Seq::empty()) }],
            ),
            id,
            settings,
        ) == Ok::<SchemaModel, SchemaErrorModel>(scope.roots[base]),
        validate_node(scope, scope.roots[base], value, path, depth) == StateModel::of_error(
            crate::validators::plain_error(ErrorKind::Not, path),
        ),
{
    law_false_compiles(id, settings);
    law_boolean_schemas(id, settings);
    reveal_strlit("not");
    assert("not"@.len() == 3);
    assert("not"@[0] == 'n' && "not"@[1] == 'o' && "not"@[2] == 't');
    let root = false_node(id);
    let url = crate::helpers::alter_fragment_path_spec(id, seq!['/'] + "not"@);
    let f = seq!['/'] + "not"@;
    assert(f.skip(1) == "not"@);
    assert(!"not"@.contains('/')) by {
        if "not"@.contains('/') {
            let i = choose|i: int| 0 <= i < "not"@.len() && "not"@[i] == '/';
            assert(i == 0 || i == 1 || i == 2);
        }
    }
    lemma_split_whole("not"@, '/');
    let parts = split_spec(f.skip(1), '/');
    assert(parts == seq!["not"@]);
    assert(parts.drop_first() == Seq::<Seq<char>>::empty());
    assert(root.tree.last().key == "not"@);
    assert(child_spec(root.tree, "not"@) == Some(empty_node()));
    assert(descend(empty_node(), Seq::empty()) == Some(empty_node()));
    assert(descend(root, parts) == Some(empty_node()));
    assert(scope.resolve(url) == Some(empty_node()));
    let below = validate_node(scope, empty_node(), value, path, (depth - 1) as nat);
    assert(below == StateModel::empty());
    assert(crate::validators::follow(scope, url, value, path, depth) == Some(below));
    let found = validate_one(scope, ValidatorModel::Not { url }, value, path, depth);
    assert(found == StateModel::of_error(crate::validators::plain_error(ErrorKind::Not, path)));
    assert(root.validators.drop_last() == Seq::<ValidatorModel>::empty());
    assert(root.validators.last() == ValidatorModel::Not { url });
    crate::validators::lemma_append_empty(found);
    assert(crate::validators::validate_all(
        scope,
        Seq::<ValidatorModel>::empty(),
        value,
        path,
        depth,
    ) == StateModel::empty());
    assert(crate::validators::validate_all(scope, root.validators, value, path, depth)
        == StateModel::empty().append(found));
}

/// How many nodes the documents `order` hold.
pub open spec fn nodes_of(order: Seq<SchemaModel>) -> nat
    decreases order.len(),
{
    if order.len() == 0 {
        0
    } else {
        nodes_of(order.drop_last()) + crate::schema::node_count(order.last())
    }
}

/// Whether the scope counts its nodes: whether `hops` is one more than the
/// nodes of its documents, as far as the count can be held.
pub open spec fn counts_its_nodes(scope: ScopeModel) -> bool {
    scope.hops == crate::json::capped(1 + nodes_of(scope.order))
}

/// A scope without documents that counts one counts its nodes, and a scope
/// that counts its nodes still does when a document is added. So every
/// scope that was made by `Scope::new` or `Scope::with_formats` counts its
/// nodes.
pub proof fn law_a_scope_counts_its_nodes(scope: ScopeModel, node: SchemaModel)
    ensures
        scope.order.len() == 0 && scope.hops == 1 ==> counts_its_nodes(scope),
        counts_its_nodes(scope) ==> (scope.add(node) matches Ok(after) ==> counts_its_nodes(after)),
{
    match scope.add(node) {
        Ok(after) => {
            assert(after.order.drop_last() == scope.order);
            assert(after.order.last() == node);
        },
        Err(_) => {},
    }
}

/// Every value weighs something, so a scope that counts its nodes follows
/// one reference at least.
pub proof fn law_the_bound_is_above_zero(scope: ScopeModel, value: JsonValue)
    requires
        scope.hops > 0,
    ensures
        crate::json::weight(value) > 0,
        crate::scope::bound_for(scope, value) > 0,
{
    let h = scope.hops as int;
    let w = crate::json::weight(value) as int;
    assert(w >= 1);
    assert(h * w >= 1) by (nonlinear_arith)
        requires
            h >= 1,
            w >= 1,
    ;
}

/// A fragment that begins with `/` is a path, and the base stays as it is;
/// a fragment without `/` is a name, and stands behind the base and a `#`.
/// So `urn:x#/a/b` is looked up by `urn:x` and `/a/b`, and `urn:x#frag` by
/// `urn:x#frag` alone.
pub proof fn law_a_fragment_is_a_path_or_a_name(base: Seq<char>, fragment: Seq<char>)
    requires
        fragment.len() > 0,
    ensures
        fragment[0] == '/' ==> crate::helpers::split_fragment_spec(base, Some(fragment)) == (
            base,
            Some(fragment),
        ),
        !fragment.contains('/') ==> crate::helpers::split_fragment_spec(base, Some(fragment)) == (
            base + seq!['#'] + fragment,
            None::<Seq<char>>,
        ),
{
    if !fragment.contains('/') {
        assert(fragment[0] != '/');
        assert forall|j: int| 0 <= j < fragment.len() implies fragment[j] != '/' by {
            assert(fragment.contains(fragment[j]));
        }
        crate::text::lemma_first_index_is(fragment, '/', fragment.len() as int);
        assert(fragment.take(fragment.len() as int) == fragment);
    }
}

/// The error of a compilation into a scope, as a keyword's result.
pub open spec fn refusal_of(r: Result<ScopeModel, SchemaErrorModel>) -> KeywordResultModel {
    match r {
        Ok(_) => Ok(None),
        Err(e) => Err(e),
    }
}

/// Binding another key leaves what a key is bound to as it was.
proof fn lemma_single_keeps(
    m: Map<Seq<char>, ConsumerModel>,
    other: Seq<char>,
    keyword: KeywordModel,
    key: Seq<char>,
)
    requires
        other != key,
    ensures
        crate::keywords::single(m, other, keyword).dom().contains(key) == m.dom().contains(key),
        m.dom().contains(key) ==> crate::keywords::single(m, other, keyword)[key] == m[key],
{
    assert(!seq![other].contains(key)) by {
        if seq![other].contains(key) {
            let i = choose|i: int| 0 <= i < seq![other].len() && seq![other][i] == key;
            assert(seq![other][i] == other);
        }
    }
}

/// The registry that a scope starts from binds the key `required` to the
/// keyword `required`, which answers to no other key; and so it does with
/// the key `format` added.
pub proof fn law_default_registry_binds_required(
    formats: Map<Seq<char>, crate::keywords::format::FormatKind>,
)
    ensures
        crate::keywords::single(
            crate::keywords::default_spec(),
            "format"@,
            KeywordModel::Format { formats },
        ).dom().contains("required"@),
        crate::keywords::single(
            crate::keywords::default_spec(),
            "format"@,
            KeywordModel::Format { formats },
        )["required"@] == (ConsumerModel { keys: seq!["required"@], keyword: KeywordModel::Required }),
{
    let key = "required"@;
    reveal_strlit("required");
    assert(key.len() == 8);
    assert(key[0] == 'r');
    reveal_strlit("const");
    assert("const"@.len() == 5);
    reveal_strlit("enum");
    assert("enum"@.len() == 4);
    reveal_strlit("exclusiveMaximum");
    assert("exclusiveMaximum"@.len() == 16);
    reveal_strlit("exclusiveMinimum");
    assert("exclusiveMinimum"@.len() == 16);
    reveal_strlit("maxItems");
    assert("maxItems"@.len() == 8);
    assert("maxItems"@[0] == 'm');
    reveal_strlit("maxLength");
    assert("maxLength"@.len() == 9);
    reveal_strlit("maxProperties");
    assert("maxProperties"@.len() == 13);
    reveal_strlit("maximum");
    assert("maximum"@.len() == 7);
    reveal_strlit("minItems");
    assert("minItems"@.len() == 8);
    assert("minItems"@[0] == 'm');
    reveal_strlit("minLength");
    assert("minLength"@.len() == 9);
    reveal_strlit("minProperties");
    assert("minProperties"@.len() == 13);
    reveal_strlit("minimum");
    assert("minimum"@.len() == 7);
    reveal_strlit("uniqueItems");
    assert("uniqueItems"@.len() == 11);
    reveal_strlit("propertyNames");
    assert("propertyNames"@.len() == 13);
    reveal_strlit("type");
    assert("type"@.len() == 4);
    reveal_strlit("pattern");
    assert("pattern"@.len() == 7);
    reveal_strlit("contains");
    assert("contains"@.len() == 8);
    assert("contains"@[0] == 'c');
    reveal_strlit("dependencies");
    assert("dependencies"@.len() == 12);
    reveal_strlit("multipleOf");
    assert("multipleOf"@.len() == 10);
    reveal_strlit("items");
    assert("items"@.len() == 5);
    reveal_strlit("properties");
    assert("properties"@.len() == 10);
    reveal_strlit("additionalProperties");
    assert("additionalProperties"@.len() == 20);
    reveal_strlit("patternProperties");
    assert("patternProperties"@.len() == 17);
    reveal_strlit("format");
    assert("format"@.len() == 6);
    let m = Map::<Seq<char>, ConsumerModel>::empty();
    let m = crate::keywords::single(m, "$ref"@, KeywordModel::Ref);
    let m = crate::keywords::single(m, "allOf"@, KeywordModel::AllOf);
    let m = crate::keywords::single(m, "anyOf"@, KeywordModel::AnyOf);
    let m = crate::keywords::single(m, "oneOf"@, KeywordModel::OneOf);
    let m = crate::keywords::single(m, "not"@, KeywordModel::Not);
    let m = crate::keywords::single(m, key, KeywordModel::Required);
    assert(seq![key][0] == key);
    assert(seq![key].contains(key));
    assert(m.dom().contains(key));
    assert(m[key] == (ConsumerModel { keys: seq![key], keyword: KeywordModel::Required }));
    lemma_single_keeps(m, "const"@, KeywordModel::Const, key);
    let m = crate::keywords::single(m, "const"@, KeywordModel::Const);
    lemma_single_keeps(m, "enum"@, KeywordModel::Enum, key);
    let m = crate::keywords::single(m, "enum"@, KeywordModel::Enum);
    lemma_single_keeps(m, "exclusiveMaximum"@, KeywordModel::ExclusiveMaximum, key);
    let m = crate::keywords::single(m, "exclusiveMaximum"@, KeywordModel::ExclusiveMaximum);
    lemma_single_keeps(m, "exclusiveMinimum"@, KeywordModel::ExclusiveMinimum, key);
    let m = crate::keywords::single(m, "exclusiveMinimum"@, KeywordModel::ExclusiveMinimum);
    lemma_single_keeps(m, "maxItems"@, KeywordModel::MaxItems, key);
    let m = crate::keywords::single(m, "maxItems"@, KeywordModel::MaxItems);
    lemma_single_keeps(m, "maxLength"@, KeywordModel::MaxLength, key);
    let m = crate::keywords::single(m, "maxLength"@, KeywordModel::MaxLength);
    lemma_single_keeps(m, "maxProperties"@, KeywordModel::MaxProperties, key);
    let m = crate::keywords::single(m, "maxProperties"@, KeywordModel::MaxProperties);
    lemma_single_keeps(m, "maximum"@, KeywordModel::Maximum, key);
    let m = crate::keywords::single(m, "maximum"@, KeywordModel::Maximum);
    lemma_single_keeps(m, "minItems"@, KeywordModel::MinItems, key);
    let m = crate::keywords::single(m, "minItems"@, KeywordModel::MinItems);
    lemma_single_keeps(m, "minLength"@, KeywordModel::MinLength, key);
    let m = crate::keywords::single(m, "minLength"@, KeywordModel::MinLength);
    lemma_single_keeps(m, "minProperties"@, KeywordModel::MinProperties, key);
    let m = crate::keywords::single(m, "minProperties"@, KeywordModel::MinProperties);
    lemma_single_keeps(m, "minimum"@, KeywordModel::Minimum, key);
    let m = crate::keywords::single(m, "minimum"@, KeywordModel::Minimum);
    lemma_single_keeps(m, "uniqueItems"@, KeywordModel::UniqueItems, key);
    let m = crate::keywords::single(m, "uniqueItems"@, KeywordModel::UniqueItems);
    lemma_single_keeps(m, "propertyNames"@, KeywordModel::PropertyNames, key);
    let m = crate::keywords::single(m, "propertyNames"@, KeywordModel::PropertyNames);
    lemma_single_keeps(m, "type"@, KeywordModel::Type, key);
    let m = crate::keywords::single(m, "type"@, KeywordModel::Type);
    lemma_single_keeps(m, "pattern"@, KeywordModel::Pattern, key);
    let m = crate::keywords::single(m, "pattern"@, KeywordModel::Pattern);
    lemma_single_keeps(m, "contains"@, KeywordModel::Contains, key);
    let m = crate::keywords::single(m, "contains"@, KeywordModel::Contains);
    lemma_single_keeps(m, "dependencies"@, KeywordModel::Dependencies, key);
    let m = crate::keywords::single(m, "dependencies"@, KeywordModel::Dependencies);
    lemma_single_keeps(m, "multipleOf"@, KeywordModel::MultipleOf, key);
    let m = crate::keywords::single(m, "multipleOf"@, KeywordModel::MultipleOf);
    lemma_single_keeps(m, "items"@, KeywordModel::Items, key);
    let m = crate::keywords::single(m, "items"@, KeywordModel::Items);
    let names = seq!["properties"@, "additionalProperties"@, "patternProperties"@];
    assert(!names.contains(key)) by {
        if names.contains(key) {
            let i = choose|i: int| 0 <= i < names.len() && names[i] == key;
            assert(i == 0 || i == 1 || i == 2);
        }
    }
    let m = crate::keywords::several(m, names, KeywordModel::Properties);
    assert(m == crate::keywords::default_spec());
    lemma_single_keeps(m, "format"@, KeywordModel::Format { formats }, key);
}

/// A document with a key whose keyword refuses it is not compiled into a
/// scope, whatever else it holds: where the keys of the scope's registry are
/// shared out among its keywords, which are the library's own and not
/// exclusive, compiling gives an error. Where the members of the document
/// and its `$schema` are not at fault, the error is a malformed one at the
/// root.
pub proof fn law_a_refused_document_is_not_compiled(
    scope: ScopeModel,
    raw: JsonValue,
    id: Seq<char>,
    ban_unknown: bool,
    p: int,
)
    requires
        keys_are_shared_out(scope.keywords),
        all_are_plain(scope.keywords),
        crate::helpers::convert_boolean_schema_spec(raw) is Object,
        0 <= p < crate::helpers::convert_boolean_schema_spec(raw).members().len(),
        scope.keywords.dom().contains(
            crate::helpers::convert_boolean_schema_spec(raw).members()[p].key,
        ),
        scope.keywords[crate::helpers::convert_boolean_schema_spec(
            raw,
        ).members()[p].key].keyword.compile(
            crate::helpers::convert_boolean_schema_spec(raw),
            WalkModel { url: id, fragment: Seq::empty() },
        ) is Err,
    ensures
        crate::scope::compiles_under(scope, raw, id, ban_unknown) is Err,
        crate::helpers::parse_url_key_spec(
            "$schema"@,
            crate::helpers::convert_boolean_schema_spec(raw),
        ) is Ok && crate::schema::object_children(
            crate::helpers::convert_boolean_schema_spec(raw),
            0,
            id,
            Seq::empty(),
            Seq::empty(),
            scope.settings(ban_unknown),
            crate::schema::Walked { tree: Seq::empty(), scopes: Map::empty() },
        ) is Ok ==> is_malformed_at(
            refusal_of(crate::scope::compiles_under(scope, raw, id, ban_unknown)),
            WalkModel { url: id, fragment: Seq::empty() },
        ),
{
    let def = crate::helpers::convert_boolean_schema_spec(raw);
    let ctx = WalkModel { url: id, fragment: Seq::empty() };
    law_refused_keyword_fails_the_node(def, ctx, scope.settings(ban_unknown), p);
}

/// The formats that are known from the start are the library's own.
pub proof fn law_default_formats_are_built_in()
    ensures
        crate::keywords::format::formats_are_built_in(
            crate::keywords::format::default_formats_spec(),
        ),
{
}

/// In a scope that is left as `Scope::new` or `Scope::with_formats` made it,
/// with formats of the library's own, a document whose `required` is no
/// array is not compiled, whatever else it holds. Where the members of the
/// document and its `$schema` are not at fault, the error is a malformed one
/// at the root.
pub proof fn law_required_of_another_kind_is_refused(
    scope: ScopeModel,
    raw: JsonValue,
    id: Seq<char>,
    ban_unknown: bool,
    formats: Map<Seq<char>, crate::keywords::format::FormatKind>,
)
    requires
        crate::keywords::format::formats_are_built_in(formats),
        scope.keywords == crate::keywords::single(
            crate::keywords::default_spec(),
            "format"@,
            KeywordModel::Format { formats },
        ),
        crate::helpers::convert_boolean_schema_spec(raw) is Object,
        crate::helpers::convert_boolean_schema_spec(raw).get("required"@) matches Some(v) && !(v
            is Array),
    ensures
        crate::scope::compiles_under(scope, raw, id, ban_unknown) is Err,
        crate::helpers::parse_url_key_spec(
            "$schema"@,
            crate::helpers::convert_boolean_schema_spec(raw),
        ) is Ok && crate::schema::object_children(
            crate::helpers::convert_boolean_schema_spec(raw),
            0,
            id,
            Seq::empty(),
            Seq::empty(),
            scope.settings(ban_unknown),
            crate::schema::Walked { tree: Seq::empty(), scopes: Map::empty() },
        ) is Ok ==> is_malformed_at(
            refusal_of(crate::scope::compiles_under(scope, raw, id, ban_unknown)),
            WalkModel { url: id, fragment: Seq::empty() },
        ),
{
    let def = crate::helpers::convert_boolean_schema_spec(raw);
    let ctx = WalkModel { url: id, fragment: Seq::empty() };
    crate::json::lemma_last_index(def.members(), "required"@);
    let p = crate::json::last_index(def.members(), "required"@);
    law_default_registry_is_shared_out(formats);
    law_default_registry_binds_required(formats);
    law_wrong_kind_is_malformed(KeywordModel::Required, def, ctx);
    law_a_refused_document_is_not_compiled(scope, raw, id, ban_unknown, p);
}

/// As `law_false_rejects_everything`, with the bound that a validation
/// derives from the scope and the value: in a scope that counts its nodes,
/// `validate` and `validate_in` find one violation, `not`, in every value.
pub proof fn law_false_rejects_everything_in_its_scope(
    id: Seq<char>,
    base: Seq<char>,
    settings: SettingsModel,
    scope: ScopeModel,
    value: JsonValue,
    path: Seq<char>,
)
    requires
        not_is_known(settings.keywords),
        scope.roots.dom().contains(base),
        scope.roots[base] == false_node(id),
        serialize_schema_path_spec(
            crate::helpers::alter_fragment_path_spec(id, seq!['/'] + "not"@),
        ) == (base, Some(seq!['/'] + "not"@)),
        scope.hops > 0,
    ensures
        validate_node(
            scope,
            scope.roots[base],
            value,
            path,
            crate::scope::bound_for(scope, value),
        ) == StateModel::of_error(crate::validators::plain_error(ErrorKind::Not, path)),
{
    law_the_bound_is_above_zero(scope, value);
    law_false_rejects_everything(
        id,
        base,
        settings,
        scope,
        value,
        path,
        crate::scope::bound_for(scope, value),
    );
}

/// A schema written as `true`, and the schema `{}`, compile under every
/// identifier, to a schema that finds no violation in any value.
pub proof fn law_true_accepts_everything(
    id: Seq<char>,
    settings: SettingsModel,
    scope: ScopeModel,
    value: JsonValue,
    path: Seq<char>,
    depth: nat,
)
    ensures
        compile_root_spec(JsonValue::Bool(true), id, settings) matches Ok(node) && validate_node(
            scope,
            node,
            value,
            path,
            depth,
        ) == StateModel::empty(),
        compile_root_spec(JsonValue::Object(Seq::empty()), id, settings) matches Ok(node)
            && validate_node(scope, node, value, path, depth) == StateModel::empty(),
{
    let def = JsonValue::Object(Seq::<MemberValue>::empty());
    assert(def.members().len() == 0);
    assert(crate::json::lookup(def.members(), "$schema"@) is None);
}

/// Binding keys that are not bound yet to a keyword of their own keeps the
/// keys of a registry shared out.
pub proof fn lemma_binding_keeps_keys_shared_out(
    keywords: Map<Seq<char>, ConsumerModel>,
    keys: Seq<Seq<char>>,
    keyword: KeywordModel,
)
    requires
        keys_are_shared_out(keywords),
        forall|i: int| 0 <= i < keys.len() ==> !keywords.dom().contains(#[trigger] keys[i]),
    ensures
        keys_are_shared_out(
            crate::keywords::bound(keywords, keys, ConsumerModel { keys, keyword }),
        ),
{
    let record = ConsumerModel { keys, keyword };
    let after = crate::keywords::bound(keywords, keys, record);
    assert forall|k: Seq<char>| #[trigger] after.dom().contains(k) implies after[k].keys.contains(
        k,
    ) by {}
    assert forall|k: Seq<char>, other: Seq<char>|
        after.dom().contains(k) && #[trigger] after[k].keys.contains(
            other,
        ) implies after.dom().contains(other) && after[other] == after[k] by {
        if keys.contains(k) {
        } else {
            assert(keywords[k].keys.contains(other));
            assert(keywords.dom().contains(other));
            if keys.contains(other) {
                let i = choose|i: int| 0 <= i < keys.len() && keys[i] == other;
                assert(!keywords.dom().contains(keys[i]));
            }
        }
    }
}

/// A registry whose keys are `names`, with keys that are none of `names`
/// bound to a keyword of their own: its keys are `names` and the new keys,
/// and they are shared out where those of the registry were.
proof fn lemma_one_more_keyword(
    keywords: Map<Seq<char>, ConsumerModel>,
    names: Seq<Seq<char>>,
    keys: Seq<Seq<char>>,
    keyword: KeywordModel,
)
    requires
        keys_are_shared_out(keywords),
        all_are_plain(keywords),
        keyword.is_plain(),
        forall|k: Seq<char>| keywords.dom().contains(k) <==> names.contains(k),
        forall|i: int| 0 <= i < keys.len() ==> !names.contains(#[trigger] keys[i]),
    ensures
        keys_are_shared_out(
            crate::keywords::bound(keywords, keys, ConsumerModel { keys, keyword }),
        ),
        all_are_plain(crate::keywords::bound(keywords, keys, ConsumerModel { keys, keyword })),
        forall|k: Seq<char>|
            crate::keywords::bound(keywords, keys, ConsumerModel { keys, keyword }).dom().contains(
                k,
            ) <==> (names + keys).contains(k),
{
    lemma_binding_keeps_keys_shared_out(keywords, keys, keyword);
    let after = crate::keywords::bound(keywords, keys, ConsumerModel { keys, keyword });
    assert forall|k: Seq<char>| after.dom().contains(k) <==> (names + keys).contains(k) by {
        if names.contains(k) {
            let i = choose|i: int| 0 <= i < names.len() && names[i] == k;
            assert((names + keys)[i] == k);
        }
        if keys.contains(k) {
            let i = choose|i: int| 0 <= i < keys.len() && keys[i] == k;
            assert((names + keys)[names.len() + i] == k);
        }
        if (names + keys).contains(k) {
            let i = choose|i: int| 0 <= i < (names + keys).len() && (names + keys)[i] == k;
            if i < names.len() {
                assert(names[i] == k);
            } else {
                assert(keys[i - names.len()] == k);
            }
        }
    }
}

/// The keys of the registry that a scope starts from are shared out among
/// its keywords, which are the library's own and not exclusive; and so it is with
/// the key `format` added for formats of the library's own. Hence no document with a
/// key that its keyword refuses compiles in a scope that is left as it was
/// made.
pub proof fn law_default_registry_is_shared_out(
    formats: Map<Seq<char>, crate::keywords::format::FormatKind>,
)
    requires
        crate::keywords::format::formats_are_built_in(formats),
    ensures
        keys_are_shared_out(crate::keywords::default_spec()),
        all_are_plain(crate::keywords::default_spec()),
        keys_are_shared_out(
            crate::keywords::single(
                crate::keywords::default_spec(),
                "format"@,
                KeywordModel::Format { formats },
            ),
        ),
        all_are_plain(
            crate::keywords::single(
                crate::keywords::default_spec(),
                "format"@,
                KeywordModel::Format { formats },
            ),
        ),
{
    reveal_strlit("$ref");
    assert("$ref"@.len() == 4);
    assert("$ref"@[0] == '$');
    reveal_strlit("allOf");
    assert("allOf"@.len() == 5);
    assert("allOf"@[0] == 'a');
    assert("allOf"@[1] == 'l');
    reveal_strlit("anyOf");
    assert("anyOf"@.len() == 5);
    assert("anyOf"@[0] == 'a');
    assert("anyOf"@[1] == 'n');
    reveal_strlit("oneOf");
    assert("oneOf"@.len() == 5);
    assert("oneOf"@[0] == 'o');
    reveal_strlit("not");
    assert("not"@.len() == 3);
    reveal_strlit("required");
    assert("required"@.len() == 8);
    assert("required"@[0] == 'r');
    reveal_strlit("const");
    assert("const"@.len() == 5);
    assert("const"@[0] == 'c');
    reveal_strlit("enum");
    assert("enum"@.len() == 4);
    assert("enum"@[0] == 'e');
    reveal_strlit("exclusiveMaximum");
    assert("exclusiveMaximum"@.len() == 16);
    assert("exclusiveMaximum"@[10] == 'a');
    reveal_strlit("exclusiveMinimum");
    assert("exclusiveMinimum"@.len() == 16);
    assert("exclusiveMinimum"@[10] == 'i');
    reveal_strlit("maxItems");
    assert("maxItems"@.len() == 8);
    assert("maxItems"@[0] == 'm');
    assert("maxItems"@[1] == 'a');
    reveal_strlit("maxLength");
    assert("maxLength"@.len() == 9);
    assert("maxLength"@[1] == 'a');
    reveal_strlit("maxProperties");
    assert("maxProperties"@.len() == 13);
    assert("maxProperties"@[0] == 'm');
    assert("maxProperties"@[1] == 'a');
    reveal_strlit("maximum");
    assert("maximum"@.len() == 7);
    assert("maximum"@[0] == 'm');
    assert("maximum"@[1] == 'a');
    reveal_strlit("minItems");
    assert("minItems"@.len() == 8);
    assert("minItems"@[0] == 'm');
    assert("minItems"@[1] == 'i');
    reveal_strlit("minLength");
    assert("minLength"@.len() == 9);
    assert("minLength"@[1] == 'i');
    reveal_strlit("minProperties");
    assert("minProperties"@.len() == 13);
    assert("minProperties"@[0] == 'm');
    assert("minProperties"@[1] == 'i');
    reveal_strlit("minimum");
    assert("minimum"@.len() == 7);
    assert("minimum"@[0] == 'm');
    assert("minimum"@[1] == 'i');
    reveal_strlit("uniqueItems");
    assert("uniqueItems"@.len() == 11);
    reveal_strlit("propertyNames");
    assert("propertyNames"@.len() == 13);
    assert("propertyNames"@[0] == 'p');
    reveal_strlit("type");
    assert("type"@.len() == 4);
    assert("type"@[0] == 't');
    reveal_strlit("pattern");
    assert("pattern"@.len() == 7);
    assert("pattern"@[0] == 'p');
    reveal_strlit("contains");
    assert("contains"@.len() == 8);
    assert("contains"@[0] == 'c');
    reveal_strlit("dependencies");
    assert("dependencies"@.len() == 12);
    reveal_strlit("items");
    assert("items"@.len() == 5);
    assert("items"@[0] == 'i');
    reveal_strlit("multipleOf");
    assert("multipleOf"@.len() == 10);
    assert("multipleOf"@[0] == 'm');
    reveal_strlit("properties");
    assert("properties"@[0] == 'p');
    assert("properties"@.len() == 10);
    reveal_strlit("additionalProperties");
    assert("additionalProperties"@.len() == 20);
    reveal_strlit("patternProperties");
    assert("patternProperties"@.len() == 17);
    reveal_strlit("format");
    assert("format"@.len() == 6);
    let m = Map::<Seq<char>, ConsumerModel>::empty();
    let names = Seq::<Seq<char>>::empty();
    lemma_one_more_keyword(m, names, seq!["$ref"@], KeywordModel::Ref);
    let m = crate::keywords::single(m, "$ref"@, KeywordModel::Ref);
    let names = names + seq!["$ref"@];
    lemma_one_more_keyword(m, names, seq!["allOf"@], KeywordModel::AllOf);
    let m = crate::keywords::single(m, "allOf"@, KeywordModel::AllOf);
    let names = names + seq!["allOf"@];
    lemma_one_more_keyword(m, names, seq!["anyOf"@], KeywordModel::AnyOf);
    let m = crate::keywords::single(m, "anyOf"@, KeywordModel::AnyOf);
    let names = names + seq!["anyOf"@];
    lemma_one_more_keyword(m, names, seq!["oneOf"@], KeywordModel::OneOf);
    let m = crate::keywords::single(m, "oneOf"@, KeywordModel::OneOf);
    let names = names + seq!["oneOf"@];
    lemma_one_more_keyword(m, names, seq!["not"@], KeywordModel::Not);
    let m = crate::keywords::single(m, "not"@, KeywordModel::Not);
    let names = names + seq!["not"@];
    lemma_one_more_keyword(m, names, seq!["required"@], KeywordModel::Required);
    let m = crate::keywords::single(m, "required"@, KeywordModel::Required);
    let names = names + seq!["required"@];
    lemma_one_more_keyword(m, names, seq!["const"@], KeywordModel::Const);
    let m = crate::keywords::single(m, "const"@, KeywordModel::Const);
    let names = names + seq!["const"@];
    lemma_one_more_keyword(m, names, seq!["enum"@], KeywordModel::Enum);
    let m = crate::keywords::single(m, "enum"@, KeywordModel::Enum);
    let names = names + seq!["enum"@];
    lemma_one_more_keyword(m, names, seq!["exclusiveMaximum"@], KeywordModel::ExclusiveMaximum);
    let m = crate::keywords::single(m, "exclusiveMaximum"@, KeywordModel::ExclusiveMaximum);
    let names = names + seq!["exclusiveMaximum"@];
    lemma_one_more_keyword(m, names, seq!["exclusiveMinimum"@], KeywordModel::ExclusiveMinimum);
    let m = crate::keywords::single(m, "exclusiveMinimum"@, KeywordModel::ExclusiveMinimum);
    let names = names + seq!["exclusiveMinimum"@];
    lemma_one_more_keyword(m, names, seq!["maxItems"@], KeywordModel::MaxItems);
    let m = crate::keywords::single(m, "maxItems"@, KeywordModel::MaxItems);
    let names = names + seq!["maxItems"@];
    lemma_one_more_keyword(m, names, seq!["maxLength"@], KeywordModel::MaxLength);
    let m = crate::keywords::single(m, "maxLength"@, KeywordModel::MaxLength);
    let names = names + seq!["maxLength"@];
    lemma_one_more_keyword(m, names, seq!["maxProperties"@], KeywordModel::MaxProperties);
    let m = crate::keywords::single(m, "maxProperties"@, KeywordModel::MaxProperties);
    let names = names + seq!["maxProperties"@];
    lemma_one_more_keyword(m, names, seq!["maximum"@], KeywordModel::Maximum);
    let m = crate::keywords::single(m, "maximum"@, KeywordModel::Maximum);
    let names = names + seq!["maximum"@];
    lemma_one_more_keyword(m, names, seq!["minItems"@], KeywordModel::MinItems);
    let m = crate::keywords::single(m, "minItems"@, KeywordModel::MinItems);
    let names = names + seq!["minItems"@];
    lemma_one_more_keyword(m, names, seq!["minLength"@], KeywordModel::MinLength);
    let m = crate::keywords::single(m, "minLength"@, KeywordModel::MinLength);
    let names = names + seq!["minLength"@];
    lemma_one_more_keyword(m, names, seq!["minProperties"@], KeywordModel::MinProperties);
    let m = crate::keywords::single(m, "minProperties"@, KeywordModel::MinProperties);
    let names = names + seq!["minProperties"@];
    lemma_one_more_keyword(m, names, seq!["minimum"@], KeywordModel::Minimum);
    let m = crate::keywords::single(m, "minimum"@, KeywordModel::Minimum);
    let names = names + seq!["minimum"@];
    lemma_one_more_keyword(m, names, seq!["uniqueItems"@], KeywordModel::UniqueItems);
    let m = crate::keywords::single(m, "uniqueItems"@, KeywordModel::UniqueItems);
    let names = names + seq!["uniqueItems"@];
    lemma_one_more_keyword(m, names, seq!["propertyNames"@], KeywordModel::PropertyNames);
    let m = crate::keywords::single(m, "propertyNames"@, KeywordModel::PropertyNames);
    let names = names + seq!["propertyNames"@];
    lemma_one_more_keyword(m, names, seq!["type"@], KeywordModel::Type);
    let m = crate::keywords::single(m, "type"@, KeywordModel::Type);
    let names = names + seq!["type"@];
    lemma_one_more_keyword(m, names, seq!["pattern"@], KeywordModel::Pattern);
    let m = crate::keywords::single(m, "pattern"@, KeywordModel::Pattern);
    let names = names + seq!["pattern"@];
    lemma_one_more_keyword(m, names, seq!["contains"@], KeywordModel::Contains);
    let m = crate::keywords::single(m, "contains"@, KeywordModel::Contains);
    let names = names + seq!["contains"@];
    lemma_one_more_keyword(m, names, seq!["dependencies"@], KeywordModel::Dependencies);
    let m = crate::keywords::single(m, "dependencies"@, KeywordModel::Dependencies);
    let names = names + seq!["dependencies"@];
    lemma_one_more_keyword(m, names, seq!["multipleOf"@], KeywordModel::MultipleOf);
    let m = crate::keywords::single(m, "multipleOf"@, KeywordModel::MultipleOf);
    let names = names + seq!["multipleOf"@];
    lemma_one_more_keyword(m, names, seq!["items"@], KeywordModel::Items);
    let m = crate::keywords::single(m, "items"@, KeywordModel::Items);
    let names = names + seq!["items"@];
    lemma_one_more_keyword(m, names, seq!["properties"@, "additionalProperties"@, "patternProperties"@], KeywordModel::Properties);
    let m = crate::keywords::several(m, seq!["properties"@, "additionalProperties"@, "patternProperties"@], KeywordModel::Properties);
    let names = names + seq!["properties"@, "additionalProperties"@, "patternProperties"@];
    assert(m == crate::keywords::default_spec());
    lemma_one_more_keyword(m, names, seq!["format"@], KeywordModel::Format { formats });
}

} // verus!
