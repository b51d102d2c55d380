//! The bound on the references that a validation follows one inside the
//! other does not show in what it reports, unless it was reached: a
//! validation that gave up on no reference reports the same with every
//! larger bound.

use crate::json::{JsonValue, MemberValue};
use crate::schema::SchemaModel;
use crate::scope::ScopeModel;
use crate::validators::{
    all_of_outcome, any_exhausted, branch_exhausted, branches, element_states, follow,
    followed_elements, found_or_missing, paired, validate_all, validate_dependencies,
    validate_elements, validate_member, validate_members, validate_node, validate_one,
    validate_patterns, validate_properties, AdditionalKindModel, DepKindModel, DependencyModel,
    ItemsKindModel, PatternModel, StateModel, ValidatorModel,
};
use vstd::prelude::*;

verus! {

broadcast use vstd::seq::group_seq_axioms;

/// Whether what was found where a reference was followed, if anything, gave
/// up on no reference.
pub open spec fn is_whole(found: Option<StateModel>) -> bool {
    match found {
        Some(s) => !s.exhausted,
        None => true,
    }
}

/// `allOf` gave up on a reference where one of its alternatives did.
proof fn lemma_all_of_exhausted(schemes: Seq<Seq<char>>, found: Seq<Option<StateModel>>)
    requires
        schemes.len() == found.len(),
    ensures
        all_of_outcome(schemes, found).exhausted == branch_exhausted(found),
    decreases found.len(),
{
    if found.len() > 0 {
        lemma_all_of_exhausted(schemes.drop_last(), found.drop_last());
    }
}

proof fn lemma_branches_len(
    scope: ScopeModel,
    schemes: Seq<Seq<char>>,
    value: JsonValue,
    path: Seq<char>,
    depth: nat,
)
    ensures
        branches(scope, schemes, value, path, depth).len() == schemes.len(),
    decreases schemes.len(),
{
    if schemes.len() > 0 {
        lemma_branches_len(scope, schemes.drop_last(), value, path, depth);
    }
}

proof fn lemma_follow(
    scope: ScopeModel,
    url: Seq<char>,
    value: JsonValue,
    path: Seq<char>,
    d: nat,
    e: nat,
)
    requires
        d <= e,
        is_whole(follow(scope, url, value, path, d)),
    ensures
        follow(scope, url, value, path, e) == follow(scope, url, value, path, d),
    decreases d, 0nat, 0nat,
{
    match scope.resolve(url) {
        Some(node) => {
            if d > 0 {
                lemma_node(scope, node, value, path, (d - 1) as nat, (e - 1) as nat);
            }
        },
        None => {},
    }
}

proof fn lemma_branches(
    scope: ScopeModel,
    schemes: Seq<Seq<char>>,
    value: JsonValue,
    path: Seq<char>,
    d: nat,
    e: nat,
)
    requires
        d <= e,
        !branch_exhausted(branches(scope, schemes, value, path, d)),
    ensures
        branches(scope, schemes, value, path, e) == branches(scope, schemes, value, path, d),
    decreases d, 0nat, schemes.len() + 1,
{
    if schemes.len() > 0 {
        let all = branches(scope, schemes, value, path, d);
        let front = branches(scope, schemes.drop_last(), value, path, d);
        let last = follow(scope, schemes.last(), value, path, d);
        assert(all == front.push(last));
        assert(all.drop_last() == front);
        assert(all.last() == last);
        lemma_branches(scope, schemes.drop_last(), value, path, d, e);
        lemma_follow(scope, schemes.last(), value, path, d, e);
    }
}

proof fn lemma_members(
    scope: ScopeModel,
    node: SchemaModel,
    members: Seq<MemberValue>,
    path: Seq<char>,
    d: nat,
    e: nat,
)
    requires
        d <= e,
        !validate_members(scope, node, members, path, d).exhausted,
    ensures
        validate_members(scope, node, members, path, e) == validate_members(
            scope,
            node,
            members,
            path,
            d,
        ),
    decreases d, 4nat, members.len(),
{
    if members.len() > 0 {
        lemma_members(scope, node, members.drop_last(), path, d, e);
        lemma_node(
            scope,
            node,
            members.last().value,
            crate::validators::name_path(path, members.last().key),
            d,
            e,
        );
    }
}

proof fn lemma_elements(
    scope: ScopeModel,
    node: SchemaModel,
    elements: Seq<JsonValue>,
    from: nat,
    upto: nat,
    path: Seq<char>,
    d: nat,
    e: nat,
)
    requires
        d <= e,
        !validate_elements(scope, node, elements, from, upto, path, d).exhausted,
    ensures
        validate_elements(scope, node, elements, from, upto, path, e) == validate_elements(
            scope,
            node,
            elements,
            from,
            upto,
            path,
            d,
        ),
    decreases d, 4nat, upto,
{
    if !(upto <= from || upto > elements.len()) {
        lemma_elements(scope, node, elements, from, (upto - 1) as nat, path, d, e);
        lemma_node(
            scope,
            node,
            elements[upto - 1],
            crate::validators::element_path(path, (upto - 1) as nat),
            d,
            e,
        );
    }
}

proof fn lemma_element_states(
    scope: ScopeModel,
    node: SchemaModel,
    elements: Seq<JsonValue>,
    n: nat,
    path: Seq<char>,
    d: nat,
    e: nat,
)
    requires
        d <= e,
        !any_exhausted(element_states(scope, node, elements, n, path, d)),
    ensures
        element_states(scope, node, elements, n, path, e) == element_states(
            scope,
            node,
            elements,
            n,
            path,
            d,
        ),
    decreases d, 4nat, n,
{
    if !(n == 0 || n > elements.len()) {
        let all = element_states(scope, node, elements, n, path, d);
        let front = element_states(scope, node, elements, (n - 1) as nat, path, d);
        let last = validate_node(
            scope,
            node,
            elements[n - 1],
            crate::validators::element_path(path, (n - 1) as nat),
            d,
        );
        assert(all == front.push(last));
        assert(all.drop_last() == front);
        assert(all.last() == last);
        lemma_element_states(scope, node, elements, (n - 1) as nat, path, d, e);
        lemma_node(
            scope,
            node,
            elements[n - 1],
            crate::validators::element_path(path, (n - 1) as nat),
            d,
            e,
        );
    }
}

proof fn lemma_followed_elements(
    scope: ScopeModel,
    url: Seq<char>,
    elements: Seq<JsonValue>,
    from: nat,
    path: Seq<char>,
    d: nat,
    e: nat,
)
    requires
        d <= e,
        !followed_elements(scope, url, elements, from, path, d).exhausted,
    ensures
        followed_elements(scope, url, elements, from, path, e) == followed_elements(
            scope,
            url,
            elements,
            from,
            path,
            d,
        ),
    decreases d, 0nat, 0nat,
{
    match scope.resolve(url) {
        Some(node) => {
            if d > 0 {
                lemma_elements(
                    scope,
                    node,
                    elements,
                    from,
                    elements.len(),
                    path,
                    (d - 1) as nat,
                    (e - 1) as nat,
                );
            }
        },
        None => {},
    }
}

proof fn lemma_paired(
    scope: ScopeModel,
    urls: Seq<Seq<char>>,
    elements: Seq<JsonValue>,
    n: nat,
    path: Seq<char>,
    d: nat,
    e: nat,
)
    requires
        d <= e,
        !paired(scope, urls, elements, n, path, d).exhausted,
    ensures
        paired(scope, urls, elements, n, path, e) == paired(scope, urls, elements, n, path, d),
    decreases d, 0nat, n + 1,
{
    if !(n == 0 || n > urls.len() || n > elements.len()) {
        lemma_paired(scope, urls, elements, (n - 1) as nat, path, d, e);
        lemma_follow(
            scope,
            urls[n - 1],
            elements[n - 1],
            crate::validators::element_path(path, (n - 1) as nat),
            d,
            e,
        );
    }
}

proof fn lemma_patterns(
    scope: ScopeModel,
    patterns: Seq<PatternModel>,
    n: nat,
    m: MemberValue,
    path: Seq<char>,
    d: nat,
    e: nat,
)
    requires
        d <= e,
        !validate_patterns(scope, patterns, n, m, path, d).exhausted,
    ensures
        validate_patterns(scope, patterns, n, m, path, e) == validate_patterns(
            scope,
            patterns,
            n,
            m,
            path,
            d,
        ),
    decreases d, 0nat, n + 1,
{
    if !(n == 0 || n > patterns.len()) {
        lemma_patterns(scope, patterns, (n - 1) as nat, m, path, d, e);
        let p = patterns[n - 1];
        if crate::validators::pattern::regex_matched(p.pattern, m.key) == Some(true) {
            lemma_follow(scope, p.url, m.value, crate::validators::member_path(path, m.key), d, e);
        }
    }
}

proof fn lemma_member(
    scope: ScopeModel,
    properties: Map<Seq<char>, Seq<char>>,
    additional: AdditionalKindModel,
    patterns: Seq<PatternModel>,
    m: MemberValue,
    path: Seq<char>,
    d: nat,
    e: nat,
)
    requires
        d <= e,
        !validate_member(scope, properties, additional, patterns, m, path, d).exhausted,
    ensures
        validate_member(scope, properties, additional, patterns, m, path, e) == validate_member(
            scope,
            properties,
            additional,
            patterns,
            m,
            path,
            d,
        ),
    decreases d, 0nat, patterns.len() + 2,
{
    let named = properties.dom().contains(m.key);
    let at = crate::validators::member_path(path, m.key);
    if named || crate::validators::any_pattern(patterns, m.key) {
        if named {
            lemma_follow(scope, properties[m.key], m.value, at, d, e);
        }
        lemma_patterns(scope, patterns, patterns.len(), m, path, d, e);
    } else {
        match additional {
            AdditionalKindModel::Schema(url) => {
                lemma_follow(scope, url, m.value, at, d, e);
            },
            _ => {},
        }
    }
}

proof fn lemma_properties(
    scope: ScopeModel,
    properties: Map<Seq<char>, Seq<char>>,
    additional: AdditionalKindModel,
    patterns: Seq<PatternModel>,
    members: Seq<MemberValue>,
    n: nat,
    path: Seq<char>,
    d: nat,
    e: nat,
)
    requires
        d <= e,
        !validate_properties(scope, properties, additional, patterns, members, n, path, d).exhausted,
    ensures
        validate_properties(scope, properties, additional, patterns, members, n, path, e)
            == validate_properties(scope, properties, additional, patterns, members, n, path, d),
    decreases d, 0nat, patterns.len() + 3 + n,
{
    if !(n == 0 || n > members.len()) {
        lemma_properties(
            scope,
            properties,
            additional,
            patterns,
            members,
            (n - 1) as nat,
            path,
            d,
            e,
        );
        lemma_member(scope, properties, additional, patterns, members[n - 1], path, d, e);
    }
}

proof fn lemma_dependencies(
    scope: ScopeModel,
    items: Seq<DependencyModel>,
    n: nat,
    value: JsonValue,
    path: Seq<char>,
    d: nat,
    e: nat,
)
    requires
        d <= e,
        !validate_dependencies(scope, items, n, value, path, d).exhausted,
    ensures
        validate_dependencies(scope, items, n, value, path, e) == validate_dependencies(
            scope,
            items,
            n,
            value,
            path,
            d,
        ),
    decreases d, 0nat, n + 1,
{
    if !(n == 0 || n > items.len()) {
        lemma_dependencies(scope, items, (n - 1) as nat, value, path, d, e);
        let item = items[n - 1];
        if value.has(item.key) {
            match item.kind {
                DepKindModel::Schema(url) => {
                    lemma_follow(scope, url, value, path, d, e);
                },
                DepKindModel::Property(_) => {},
            }
        }
    }
}

proof fn lemma_one(
    scope: ScopeModel,
    v: ValidatorModel,
    value: JsonValue,
    path: Seq<char>,
    d: nat,
    e: nat,
)
    requires
        d <= e,
        !validate_one(scope, v, value, path, d).exhausted,
    ensures
        validate_one(scope, v, value, path, e) == validate_one(scope, v, value, path, d),
    decreases d, 1nat, 0nat,
{
    match v {
        ValidatorModel::Ref { url } => {
            lemma_follow(scope, url, value, path, d, e);
        },
        ValidatorModel::AllOf { schemes } => {
            lemma_branches_len(scope, schemes, value, path, d);
            lemma_all_of_exhausted(schemes, branches(scope, schemes, value, path, d));
            lemma_branches(scope, schemes, value, path, d, e);
        },
        ValidatorModel::AnyOf { schemes } => {
            lemma_branches(scope, schemes, value, path, d, e);
        },
        ValidatorModel::OneOf { schemes } => {
            lemma_branches(scope, schemes, value, path, d, e);
        },
        ValidatorModel::Not { url } => {
            lemma_follow(scope, url, value, path, d, e);
        },
        ValidatorModel::PropertyNames { url } => {
            match (value, scope.resolve(url)) {
                (JsonValue::Object(members), Some(node)) => {
                    if d > 0 {
                        lemma_members(scope, node, members, path, (d - 1) as nat, (e - 1) as nat);
                    }
                },
                _ => {},
            }
        },
        ValidatorModel::Items { items, additional } => {
            match (value, items) {
                (JsonValue::Array(a), Some(ItemsKindModel::Schema(url))) => {
                    lemma_followed_elements(scope, url, a, 0, path, d, e);
                },
                (JsonValue::Array(a), Some(ItemsKindModel::Array(urls))) => {
                    lemma_paired(
                        scope,
                        urls,
                        a,
                        crate::validators::least(urls.len(), a.len()),
                        path,
                        d,
                        e,
                    );
                    if a.len() > urls.len() {
                        match additional {
                            Some(AdditionalKindModel::Schema(url)) => {
                                lemma_followed_elements(scope, url, a, urls.len(), path, d, e);
                            },
                            _ => {},
                        }
                    }
                },
                _ => {},
            }
        },
        ValidatorModel::Properties { properties, additional, patterns } => {
            match value {
                JsonValue::Object(members) => {
                    lemma_properties(
                        scope,
                        properties,
                        additional,
                        patterns,
                        members,
                        members.len(),
                        path,
                        d,
                        e,
                    );
                },
                _ => {},
            }
        },
        ValidatorModel::Contains { url } => {
            match (value, scope.resolve(url)) {
                (JsonValue::Array(a), Some(node)) => {
                    if d > 0 {
                        lemma_element_states(
                            scope,
                            node,
                            a,
                            a.len(),
                            path,
                            (d - 1) as nat,
                            (e - 1) as nat,
                        );
                    }
                },
                _ => {},
            }
        },
        ValidatorModel::Dependencies { items } => {
            match value {
                JsonValue::Object(_) => {
                    lemma_dependencies(scope, items, items.len(), value, path, d, e);
                },
                _ => {},
            }
        },
        _ => {},
    }
}

proof fn lemma_all(
    scope: ScopeModel,
    validators: Seq<ValidatorModel>,
    value: JsonValue,
    path: Seq<char>,
    d: nat,
    e: nat,
)
    requires
        d <= e,
        !validate_all(scope, validators, value, path, d).exhausted,
    ensures
        validate_all(scope, validators, value, path, e) == validate_all(
            scope,
            validators,
            value,
            path,
            d,
        ),
    decreases d, 2nat, validators.len(),
{
    if validators.len() > 0 {
        lemma_all(scope, validators.drop_last(), value, path, d, e);
        lemma_one(scope, validators.last(), value, path, d, e);
    }
}

proof fn lemma_node(
    scope: ScopeModel,
    node: SchemaModel,
    value: JsonValue,
    path: Seq<char>,
    d: nat,
    e: nat,
)
    requires
        d <= e,
        !validate_node(scope, node, value, path, d).exhausted,
    ensures
        validate_node(scope, node, value, path, e) == validate_node(scope, node, value, path, d),
    decreases d, 3nat, 0nat,
{
    lemma_all(scope, node.validators, value, path, d, e);
}

/// A validation that gave up on no reference has followed all there were to
/// follow: with every larger bound it reports the same. So what a
/// validation reports does not depend on the bound once the bound is large
/// enough, and whether it was is seen in `exhausted`.
pub proof fn law_a_larger_bound_changes_nothing(
    scope: ScopeModel,
    node: SchemaModel,
    value: JsonValue,
    path: Seq<char>,
    depth: nat,
    larger: nat,
)
    requires
        depth <= larger,
        !validate_node(scope, node, value, path, depth).exhausted,
    ensures
        validate_node(scope, node, value, path, larger) == validate_node(
            scope,
            node,
            value,
            path,
            depth,
        ),
{
    lemma_node(scope, node, value, path, depth, larger);
}

/// What a reference to a schema that the scope holds reports is what that
/// schema reports of the same value at the same path, with one reference
/// less to follow: nothing is added, nothing is dropped. Where the schema
/// gave up on no reference, it is also what the schema reports with as many
/// references to follow, and with more.
pub proof fn law_a_reference_hands_on_what_its_schema_finds(
    scope: ScopeModel,
    url: Seq<char>,
    value: JsonValue,
    path: Seq<char>,
    depth: nat,
    larger: nat,
)
    requires
        depth > 0,
        depth - 1 <= larger,
        scope.resolve(url) is Some,
    ensures
        validate_one(scope, ValidatorModel::Ref { url }, value, path, depth) == validate_node(
            scope,
            scope.resolve(url)->Some_0,
            value,
            path,
            (depth - 1) as nat,
        ),
        !validate_one(scope, ValidatorModel::Ref { url }, value, path, depth).exhausted
            ==> validate_one(scope, ValidatorModel::Ref { url }, value, path, depth)
            == validate_node(scope, scope.resolve(url)->Some_0, value, path, larger),
{
    let node = scope.resolve(url)->Some_0;
    if !validate_node(scope, node, value, path, (depth - 1) as nat).exhausted {
        lemma_node(scope, node, value, path, (depth - 1) as nat, larger);
    }
}

} // verus!
