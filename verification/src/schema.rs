//! Compiled schemas, and the compiler that makes them.

use crate::helpers::{
    convert_boolean_schema, convert_boolean_schema_spec, encode, encode_spec, generate_id,
    id_from_uuid_spec, id_view, is_uuid_text,
    option_uri_view, parse_url_key, parse_url_key_spec, parse_url_key_with_base,
    parse_url_key_with_base_spec,
};
use crate::json::{
    capped, capped_sum,
    lemma_element_weight, lemma_member_weight, weight, Json, JsonValue, MemberValue,
};
use crate::keywords::{registry_model, consumed, ConsumerModel, KeywordMap};
use crate::table::{key_set_items, KeySet, Table};
use crate::text::{
    clone_strings, decimal, decimal_spec, join, join_spec, split, split_spec, str_eq, views,
};
use crate::uri::Uri;
use crate::scope::{bound_for, Scope, ScopeModel};
use crate::validators::{
    validate_all, validate_node, validator_models, ValidationState, Validator, ValidatorModel,
};
use vstd::prelude::*;

verus! {

broadcast use {vstd::seq::group_seq_axioms, vstd::std_specs::vec::group_vec_axioms};

/// A compiled schema: one node of a tree that mirrors the document.
pub struct Schema {
    /// The identifier of the node: that of the document at the root, and below
    /// it the one that a node declares for itself.
    pub id: Option<Uri>,
    schema: Option<Uri>,
    source: Json,
    tree: Vec<Child>,
    validators: Vec<Validator>,
    scopes: Table<Vec<String>>,
}

/// A node below another, under the path segment that leads to it.
pub struct Child {
    key: String,
    node: Schema,
}

/// The model of a [`Schema`].
pub struct SchemaModel {
    /// The identifier of the node.
    pub id: Option<Seq<char>>,
    /// The meta-schema that the node names.
    pub schema: Option<Seq<char>>,
    /// The document that the node was compiled from.
    pub source: JsonValue,
    /// The nodes below, each under its path segment. Of two with the same
    /// segment the later one counts.
    pub tree: Seq<ChildModel>,
    /// The checks of the node.
    pub validators: Seq<ValidatorModel>,
    /// For each identifier declared in the document, the path to its node.
    pub scopes: Map<Seq<char>, Seq<Seq<char>>>,
}

/// The model of a [`Child`].
pub struct ChildModel {
    pub key: Seq<char>,
    pub node: SchemaModel,
}

/// The model of a table of paths.
pub open spec fn scopes_model(scopes: Table<Vec<String>>) -> Map<Seq<char>, Seq<Seq<char>>> {
    Map::new(|k: Seq<char>| scopes.has(k), |k: Seq<char>| views(scopes.entries()[k]@))
}

/// The model of a schema.
pub closed spec fn schema_model(s: Schema) -> SchemaModel
    decreases s,
{
    SchemaModel {
        id: option_uri_view(s.id),
        schema: option_uri_view(s.schema),
        source: s.source@,
        tree: Seq::new(
            s.tree.len() as nat,
            |i: int|
                if 0 <= i < s.tree.len() {
                    ChildModel { key: s.tree[i].key@, node: schema_model(s.tree[i].node) }
                } else {
                    arbitrary()
                },
        ),
        validators: validator_models(s.validators@),
        scopes: scopes_model(s.scopes),
    }
}

impl View for Schema {
    type V = SchemaModel;

    open spec fn view(&self) -> SchemaModel {
        schema_model(*self)
    }
}

/// How many nodes stand below the first `n` segments of `node`, those nodes
/// themselves counted.
pub open spec fn nodes_below(node: SchemaModel, n: nat) -> nat
    decreases node, 0nat, n,
{
    if n == 0 || n > node.tree.len() {
        0
    } else {
        nodes_below(node, (n - 1) as nat) + node_count(node.tree[n - 1].node)
    }
}

/// How many nodes the tree of `node` holds, `node` itself counted.
pub open spec fn node_count(node: SchemaModel) -> nat
    decreases node, 1nat, 0nat,
{
    1 + nodes_below(node, node.tree.len())
}

/// The node under the segment `key`: the last of `tree` with that segment.
pub open spec fn child_spec(tree: Seq<ChildModel>, key: Seq<char>) -> Option<SchemaModel>
    decreases tree.len(),
{
    if tree.len() == 0 {
        None
    } else if tree.last().key == key {
        Some(tree.last().node)
    } else {
        child_spec(tree.drop_last(), key)
    }
}

/// The node that `path` leads to from `node`, one segment after the other.
pub open spec fn descend(node: SchemaModel, path: Seq<Seq<char>>) -> Option<SchemaModel>
    decreases path.len(),
{
    if path.len() == 0 {
        Some(node)
    } else {
        match child_spec(node.tree, path[0]) {
            Some(c) => descend(c, path.drop_first()),
            None => None,
        }
    }
}

impl SchemaModel {
    /// The node that declared the identifier `id` for itself.
    pub open spec fn resolve(self, id: Seq<char>) -> Option<SchemaModel> {
        if self.scopes.dom().contains(id) {
            descend(self, self.scopes[id])
        } else {
            None
        }
    }

    /// The node that the path `fragment` leads to. The path begins with `/`,
    /// and a `/` stands between its segments.
    pub open spec fn resolve_fragment(self, fragment: Seq<char>) -> Option<SchemaModel> {
        descend(self, split_spec(fragment.skip(1), '/'))
    }
}

/// A schema together with the scope that its references are looked up in.
pub struct ScopedSchema<'scope, 'schema> {
    scope: &'scope Scope,
    schema: &'schema Schema,
}

impl<'scope, 'schema> ScopedSchema<'scope, 'schema> {
    /// The model of the schema.
    pub closed spec fn node(&self) -> SchemaModel {
        self.schema@
    }

    /// The model of the scope.
    pub closed spec fn scope_model(&self) -> ScopeModel {
        self.scope@
    }

    /// Binds a schema to the scope that its references are looked up in.
    pub fn new(scope: &'scope Scope, schema: &'schema Schema) -> (r: ScopedSchema<'scope, 'schema>)
        ensures
            r.node() == schema@,
            r.scope_model() == scope@,
    {
        ScopedSchema { scope, schema }
    }

    /// The schema.
    pub fn schema(&self) -> (r: &'schema Schema)
        ensures
            r@ == self.node(),
    {
        self.schema
    }

    /// Validates `data`, which stands at the root.
    ///
    /// An identifier in `missing` is one that the scope does not hold. As
    /// many references are followed one inside the other as `bound_for`
    /// says; where that was not enough, the state says so in `exhausted`.
    pub fn validate(&self, data: &Json) -> (r: ValidationState)
        ensures
            r@ == validate_node(
                self.scope_model(),
                self.node(),
                data@,
                Seq::empty(),
                bound_for(self.scope_model(), data@),
            ),
    {
        let depth = self.scope.bound_for(data);
        proof {
            reveal_strlit("");
            assert(""@ == Seq::<char>::empty());
        }
        self.schema.validate_in_scope(data, "", self.scope, depth)
    }

    /// Validates `data`, which stands at `path`.
    ///
    /// An identifier in `missing` is one that the scope does not hold. As
    /// many references are followed one inside the other as `bound_for`
    /// says; where that was not enough, the state says so in `exhausted`.
    pub fn validate_in(&self, data: &Json, path: &str) -> (r: ValidationState)
        ensures
            r@ == validate_node(
                self.scope_model(),
                self.node(),
                data@,
                path@,
                bound_for(self.scope_model(), data@),
            ),
    {
        let depth = self.scope.bound_for(data);
        self.schema.validate_in_scope(data, path, self.scope, depth)
    }

    /// Validates `data`, which stands at `path`, and follows `depth`
    /// references one inside the other at most. Where that was not enough,
    /// the state says so in `exhausted`.
    pub fn validate_within(&self, data: &Json, path: &str, depth: usize) -> (r: ValidationState)
        ensures
            r@ == validate_node(self.scope_model(), self.node(), data@, path@, depth as nat),
        decreases depth, 4nat, 0nat,
    {
        self.schema.validate_in_scope(data, path, self.scope, depth)
    }
}

impl Schema {
    /// The identifier of the node.
    pub fn id(&self) -> (r: Option<&Uri>)
        ensures
            r is Some <==> self@.id is Some,
            r matches Some(id) ==> self@.id == Some(id@),
    {
        match &self.id {
            Some(id) => Some(id),
            None => None,
        }
    }

    /// How many nodes the tree of the node holds, the node itself counted,
    /// as far as the count can be held.
    pub fn node_count(&self) -> (r: usize)
        ensures
            r == capped(node_count(self@)),
        decreases self,
    {
        let mut total: usize = 0;
        let mut i: usize = 0;
        while i < self.tree.len()
            invariant
                i <= self.tree.len(),
                self@.tree.len() == self.tree.len(),
                forall|k: int| 0 <= k < self.tree.len() ==> self@.tree[k].node == self.tree[k].node@,
                total == capped(nodes_below(self@, i as nat)),
            decreases self.tree.len() - i,
        {
            let part = self.tree[i].node.node_count();
            total = capped_sum(total, part);
            i = i + 1;
        }
        capped_sum(total, 1)
    }

    /// The document that the node was compiled from.
    pub fn source(&self) -> (r: &Json)
        ensures
            r@ == self@.source,
    {
        &self.source
    }

    /// Runs the checks of the node on `data`, one after the other.
    fn validate_in_scope(&self, data: &Json, path: &str, scope: &Scope, depth: usize) -> (r:
        ValidationState)
        ensures
            r@ == validate_node(scope@, self@, data@, path@, depth as nat),
        decreases depth, 3nat, 0nat,
    {
        let ghost models = validator_models(self.validators@);
        let mut state = ValidationState::new();
        let mut i: usize = 0;
        while i < self.validators.len()
            invariant
                i <= self.validators.len(),
                models == validator_models(self.validators@),
                state@ == validate_all(scope@, models.take(i as int), data@, path@, depth as nat),
            decreases self.validators.len() - i,
        {
            proof {
                let done = models.take(i + 1);
                assert(done.drop_last() == models.take(i as int));
                assert(done.last() == self.validators[i as int]@);
            }
            state.append(self.validators[i].validate(data, path, scope, depth));
            i = i + 1;
        }
        assert(models.take(self.validators.len() as int) == models);
        state
    }

    /// The node under the path segment `key`.
    pub fn child(&self, key: &str) -> (r: Option<&Schema>)
        ensures
            option_schema_view(r) == child_spec(self@.tree, key@),
    {
        let ghost tree = self@.tree;
        let mut i: usize = self.tree.len();
        assert(tree.take(i as int) == tree);
        while i > 0
            invariant
                i <= self.tree.len(),
                tree == self@.tree,
                tree.len() == self.tree.len(),
                child_spec(tree, key@) == child_spec(tree.take(i as int), key@),
            decreases i,
        {
            i = i - 1;
            proof {
                let upto = tree.take(i + 1);
                assert(upto.drop_last() == tree.take(i as int));
                assert(upto.last() == tree[i as int]);
                assert(tree[i as int].key == self.tree[i as int].key@);
                assert(tree[i as int].node == self.tree[i as int].node@);
            }
            if str_eq(self.tree[i].key.as_str(), key) {
                return Some(&self.tree[i].node);
            }
        }
        None
    }

    /// The node that `path` leads to, one segment after the other.
    pub fn descend(&self, path: &Vec<String>) -> (r: Option<&Schema>)
        ensures
            option_schema_view(r) == descend(self@, views(path@)),
    {
        let ghost segments = views(path@);
        let mut schema = self;
        let mut i: usize = 0;
        assert(segments.skip(0) == segments);
        while i < path.len()
            invariant
                i <= path.len(),
                segments == views(path@),
                descend(self@, segments) == descend(schema@, segments.skip(i as int)),
            decreases path.len() - i,
        {
            proof {
                let rest = segments.skip(i as int);
                assert(rest[0] == path[i as int]@);
                assert(rest.drop_first() == segments.skip(i + 1));
            }
            match schema.child(path[i].as_str()) {
                Some(next) => {
                    schema = next;
                },
                None => {
                    return None;
                },
            }
            i = i + 1;
        }
        Some(schema)
    }

    /// The node that declared the identifier `id` for itself.
    pub fn resolve(&self, id: &str) -> (r: Option<&Schema>)
        ensures
            option_schema_view(r) == self@.resolve(id@),
    {
        match self.scopes.get(id) {
            Some(path) => self.descend(path),
            None => None,
        }
    }

    /// The node that the path `fragment` leads to.
    pub fn resolve_fragment(&self, fragment: &str) -> (r: Option<&Schema>)
        requires
            fragment@.len() > 0,
            fragment@[0] == '/',
        ensures
            option_schema_view(r) == self@.resolve_fragment(fragment@),
    {
        let parts = split(skip_first(fragment).as_str(), '/');
        self.descend(&parts)
    }
}

/// `s` without its first character.
fn skip_first(s: &str) -> (r: String)
    requires
        s@.len() > 0,
    ensures
        r@ == s@.skip(1),
{
    let mut out = String::new();
    let mut first = true;
    for c in it: s.chars()
        invariant
            it.seq() == s@,
            first <==> it.index() == 0,
            first ==> out@.len() == 0,
            !first ==> out@ == s@.subrange(1, it.index()),
    {
        if first {
            first = false;
        } else {
            crate::text::push_char(&mut out, c);
        }
    }
    assert(s@.subrange(1, s@.len() as int) == s@.skip(1));
    out
}

/// The model of a node that may be absent.
pub open spec fn option_schema_view(s: Option<&Schema>) -> Option<SchemaModel> {
    match s {
        Some(s) => Some(s@),
        None => None,
    }
}

/// Why a document could not be compiled.
#[derive(Debug)]
pub enum SchemaError {
    /// The identifier of a root has a fragment.
    WrongId,
    /// The identifier is taken.
    IdConflicts,
    /// The document is neither an object nor a boolean.
    NotAnObject,
    /// An identifier in the document is no URL.
    UrlParseError(url::ParseError),
    /// A key that no keyword answers to, where such keys are banned.
    UnknownKey(String),
    /// A keyword's value has not the shape that the keyword asks for.
    Malformed { path: String, detail: String },
}

/// The model of a [`SchemaError`]. Of a refused URL it says only that it was
/// refused.
pub enum SchemaErrorModel {
    WrongId,
    IdConflicts,
    NotAnObject,
    UrlParseError,
    UnknownKey(Seq<char>),
    Malformed { path: Seq<char>, detail: Seq<char> },
}

impl View for SchemaError {
    type V = SchemaErrorModel;

    open spec fn view(&self) -> SchemaErrorModel {
        match self {
            SchemaError::WrongId => SchemaErrorModel::WrongId,
            SchemaError::IdConflicts => SchemaErrorModel::IdConflicts,
            SchemaError::NotAnObject => SchemaErrorModel::NotAnObject,
            SchemaError::UrlParseError(_) => SchemaErrorModel::UrlParseError,
            SchemaError::UnknownKey(k) => SchemaErrorModel::UnknownKey(k@),
            SchemaError::Malformed { path, detail } => SchemaErrorModel::Malformed {
                path: path@,
                detail: detail@,
            },
        }
    }
}

/// What `Display` of the `url` crate writes for the reason `e`.
#[verifier::external_body]
fn parse_error_text(e: &url::ParseError) -> (r: String) {
    e.to_string()
}

/// What is written for an error, but for a refused URL, where the words of
/// the `url` crate follow `url parse error: `.
pub open spec fn message_of(e: SchemaErrorModel) -> Seq<char> {
    match e {
        SchemaErrorModel::WrongId => "wrong id"@,
        SchemaErrorModel::IdConflicts => "id conflicts"@,
        SchemaErrorModel::NotAnObject => "not an object"@,
        SchemaErrorModel::UrlParseError => "url parse error: "@,
        SchemaErrorModel::UnknownKey(k) => "unknown key: "@ + k,
        SchemaErrorModel::Malformed { path, detail } => "malformed path: `"@ + path
            + "`, details: "@ + detail,
    }
}

impl SchemaError {
    /// The error in words.
    pub fn message(&self) -> (r: String)
        ensures
            !(self@ is UrlParseError) ==> r@ == message_of(self@),
            self@ is UrlParseError ==> exists|reason: Seq<char>| r@ == message_of(self@) + reason,
    {
        match self {
            SchemaError::WrongId => "wrong id".to_string(),
            SchemaError::IdConflicts => "id conflicts".to_string(),
            SchemaError::NotAnObject => "not an object".to_string(),
            SchemaError::UrlParseError(e) => {
                let mut out = "url parse error: ".to_string();
                let reason = parse_error_text(e);
                out.append(reason.as_str());
                assert(out@ == message_of(self@) + reason@);
                out
            },
            SchemaError::UnknownKey(k) => {
                let mut out = "unknown key: ".to_string();
                out.append(k.as_str());
                out
            },
            SchemaError::Malformed { path, detail } => {
                let mut out = "malformed path: `".to_string();
                out.append(path.as_str());
                out.append("`, details: ");
                out.append(detail.as_str());
                out
            },
        }
    }
}

/// Where the compiler stands in a document: the identifier that relative
/// identifiers are read against, and the path from the root to the node, each
/// segment written as it is in the tree of the compiled schema.
#[derive(Debug)]
pub struct WalkContext<'walk> {
    pub url: &'walk Uri,
    pub fragment: Vec<String>,
}

/// The model of a [`WalkContext`].
pub struct WalkModel {
    pub url: Seq<char>,
    pub fragment: Seq<Seq<char>>,
}

impl<'walk> View for WalkContext<'walk> {
    type V = WalkModel;

    open spec fn view(&self) -> WalkModel {
        WalkModel { url: self.url@, fragment: views(self.fragment@) }
    }
}

impl WalkModel {
    /// The path as one text, with `/` between the segments.
    pub open spec fn escaped_fragment(self) -> Seq<char> {
        join_spec(self.fragment, "/"@)
    }

    /// The error for a keyword whose value has the wrong shape.
    pub open spec fn malformed(self, detail: Seq<char>) -> SchemaErrorModel {
        SchemaErrorModel::Malformed { path: self.escaped_fragment(), detail }
    }
}

impl<'walk> WalkContext<'walk> {
    /// The path as one text, with `/` between the segments.
    pub fn escaped_fragment(&self) -> (r: String)
        ensures
            r@ == self@.escaped_fragment(),
    {
        join(&self.fragment, "/")
    }

    /// The error for a keyword whose value has the wrong shape.
    pub fn malformed(&self, detail: &str) -> (r: SchemaError)
        ensures
            r@ == self@.malformed(detail@),
    {
        SchemaError::Malformed { path: join(&self.fragment, "/"), detail: detail.to_string() }
    }
}

/// Keys whose value is data, not a schema: the compiler does not descend into
/// it.
pub open spec fn is_final_key(key: Seq<char>) -> bool {
    key == "enum"@ || key == "const"@ || key == "required"@ || key == "type"@ || key == "default"@
        || key == "examples"@
}

/// Keys whose value holds schemas without being one: no keyword is compiled
/// from it.
pub open spec fn is_non_schema_key(key: Seq<char>) -> bool {
    key == "properties"@ || key == "patternProperties"@ || key == "definitions"@ || key
        == "dependencies"@ || key == "allOf"@ || key == "anyOf"@ || key == "oneOf"@
}

/// Keys whose value maps names to schemas: every member is a schema, whatever
/// its name.
pub open spec fn is_property_key(key: Seq<char>) -> bool {
    key == "properties"@ || key == "patternProperties"@ || key == "definitions"@ || key
        == "dependencies"@
}

/// Keys whose value may be an array of schemas, each of which may be written as
/// a boolean.
pub open spec fn is_boolean_schema_array_key(key: Seq<char>) -> bool {
    key == "items"@ || key == "allOf"@ || key == "anyOf"@ || key == "oneOf"@
}

/// Keys that no keyword answers to and that are harmless all the same.
pub open spec fn is_allowed_unknown_key(key: Seq<char>) -> bool {
    key == "definitions"@ || key == "$schema"@ || key == "$id"@ || key == "id"@ || key
        == "default"@ || key == "description"@ || key == "title"@ || key == "examples"@ || key
        == "$comment"@ || key == "format"@
}

/// Whether the value under `key` is data.
pub fn final_key(key: &str) -> (r: bool)
    ensures
        r == is_final_key(key@),
{
    str_eq(key, "enum") || str_eq(key, "const") || str_eq(key, "required") || str_eq(key, "type")
        || str_eq(key, "default") || str_eq(key, "examples")
}

/// Whether the value under `key` holds schemas without being one.
pub fn non_schema_key(key: &str) -> (r: bool)
    ensures
        r == is_non_schema_key(key@),
{
    str_eq(key, "properties") || str_eq(key, "patternProperties") || str_eq(key, "definitions")
        || str_eq(key, "dependencies") || str_eq(key, "allOf") || str_eq(key, "anyOf") || str_eq(
        key,
        "oneOf",
    )
}

/// Whether the value under `key` maps names to schemas.
pub fn property_key(key: &str) -> (r: bool)
    ensures
        r == is_property_key(key@),
{
    str_eq(key, "properties") || str_eq(key, "patternProperties") || str_eq(key, "definitions")
        || str_eq(key, "dependencies")
}

/// Whether the value under `key` may be an array of schemas.
pub fn boolean_schema_array_key(key: &str) -> (r: bool)
    ensures
        r == is_boolean_schema_array_key(key@),
{
    str_eq(key, "items") || str_eq(key, "allOf") || str_eq(key, "anyOf") || str_eq(key, "oneOf")
}

/// Whether `key` is harmless though no keyword answers to it.
pub fn allowed_unknown_key(key: &str) -> (r: bool)
    ensures
        r == is_allowed_unknown_key(key@),
{
    str_eq(key, "definitions") || str_eq(key, "$schema") || str_eq(key, "$id") || str_eq(key, "id")
        || str_eq(key, "default") || str_eq(key, "description") || str_eq(key, "title") || str_eq(
        key,
        "examples",
    ) || str_eq(key, "$comment") || str_eq(key, "format")
}

/// What the compiler is told: the keywords, and whether a key that no keyword
/// answers to is an error.
pub struct CompilationSettings<'a> {
    pub keywords: &'a KeywordMap,
    pub ban_unknown_keywords: bool,
}

/// The model of [`CompilationSettings`].
pub struct SettingsModel {
    pub keywords: Map<Seq<char>, ConsumerModel>,
    pub ban_unknown_keywords: bool,
}

impl<'a> View for CompilationSettings<'a> {
    type V = SettingsModel;

    open spec fn view(&self) -> SettingsModel {
        SettingsModel {
            keywords: registry_model(*self.keywords),
            ban_unknown_keywords: self.ban_unknown_keywords,
        }
    }
}

impl<'a> CompilationSettings<'a> {
    /// The settings: the keywords, and whether unknown keys are an error.
    pub fn new(keywords: &'a KeywordMap, ban_unknown_keywords: bool) -> (r: CompilationSettings<'a>)
        ensures
            r@ == (SettingsModel {
                keywords: registry_model(*keywords),
                ban_unknown_keywords,
            }),
    {
        CompilationSettings { keywords, ban_unknown_keywords }
    }
}

/// The keys of `members`.
pub open spec fn keys_of(members: Seq<MemberValue>) -> Set<Seq<char>> {
    Set::new(|k: Seq<char>| exists|i: int| 0 <= i < members.len() && #[trigger] members[i].key == k)
}

/// The first of `unknown` that is not harmless.
pub open spec fn first_banned(unknown: Seq<Seq<char>>) -> Option<Seq<char>>
    decreases unknown.len(),
{
    if unknown.len() == 0 {
        None
    } else if !is_allowed_unknown_key(unknown[0]) {
        Some(unknown[0])
    } else {
        first_banned(unknown.drop_first())
    }
}

/// The end of the compilation of a node's keywords: the checks gathered,
/// unless unknown keys are banned and one of `unknown` is not harmless.
pub open spec fn finish_keywords(
    settings: SettingsModel,
    acc: Seq<ValidatorModel>,
    unknown: Seq<Seq<char>>,
) -> Result<Seq<ValidatorModel>, SchemaErrorModel> {
    if settings.ban_unknown_keywords {
        match first_banned(unknown) {
            Some(k) => Err(SchemaErrorModel::UnknownKey(k)),
            None => Ok(acc),
        }
    } else {
        Ok(acc)
    }
}

/// The compilation of the keywords of `def` from its member `i` on.
///
/// `remaining` are the keys still to be looked at, `acc` the checks gathered
/// and `unknown` the keys that no keyword answered to. A member whose key is
/// no longer in `remaining` is passed over. A keyword takes all its keys off
/// `remaining`; its check, if it gives one, joins `acc`. An exclusive keyword
/// ends the compilation: its check is then the only one, and where it gives
/// none the checks gathered so far stay.
pub open spec fn keywords_from(
    def: JsonValue,
    ctx: WalkModel,
    settings: SettingsModel,
    i: nat,
    remaining: Set<Seq<char>>,
    acc: Seq<ValidatorModel>,
    unknown: Seq<Seq<char>>,
) -> Result<Seq<ValidatorModel>, SchemaErrorModel>
    decreases def.members().len() - i,
{
    if i >= def.members().len() {
        finish_keywords(settings, acc, unknown)
    } else {
        let key = def.members()[i as int].key;
        if !remaining.contains(key) {
            keywords_from(def, ctx, settings, i + 1, remaining, acc, unknown)
        } else if settings.keywords.dom().contains(key) {
            let consumer = settings.keywords[key];
            match consumer.keyword.compile(def, ctx) {
                Err(e) => Err(e),
                Ok(found) => if consumer.keyword.is_exclusive() {
                    finish_keywords(
                        settings,
                        match found {
                            Some(v) => seq![v],
                            None => acc,
                        },
                        unknown,
                    )
                } else {
                    keywords_from(
                        def,
                        ctx,
                        settings,
                        i + 1,
                        consumed(consumer.keys, remaining),
                        match found {
                            Some(v) => acc.push(v),
                            None => acc,
                        },
                        unknown,
                    )
                },
            }
        } else {
            keywords_from(
                def,
                ctx,
                settings,
                i + 1,
                remaining.remove(key),
                acc,
                if settings.ban_unknown_keywords {
                    unknown.push(key)
                } else {
                    unknown
                },
            )
        }
    }
}

/// The checks of the node `def`: its members are gone through in the order of
/// the document, and each key is handed to the keyword that answers to it.
pub open spec fn compile_keywords_spec(def: JsonValue, ctx: WalkModel, settings: SettingsModel) -> Result<
    Seq<ValidatorModel>,
    SchemaErrorModel,
> {
    keywords_from(def, ctx, settings, 0, keys_of(def.members()), Seq::empty(), Seq::empty())
}

/// The nodes compiled so far below a node, and the table of identifiers.
pub struct Walked {
    pub tree: Seq<ChildModel>,
    pub scopes: Map<Seq<char>, Seq<Seq<char>>>,
}

/// A compiled node, and the table of identifiers after it.
pub struct Compiled {
    pub node: SchemaModel,
    pub scopes: Map<Seq<char>, Seq<Seq<char>>>,
}

/// Whether the compiler descends into the member `m` of a node that stands
/// under the key `parent_key`: its value can hold a schema, and its key is
/// none whose value is data, unless the node maps names to schemas.
pub open spec fn member_is_walked(parent_key: Seq<char>, m: MemberValue) -> bool {
    m.value.is_container() && (is_property_key(parent_key) || !is_final_key(m.key))
}

/// Whether the member under `key` of a node under `parent_key` is a schema.
pub open spec fn member_is_schema(parent_key: Seq<char>, key: Seq<char>) -> bool {
    is_property_key(parent_key) || !is_non_schema_key(key)
}

/// The element `e` of an array under `parent_key` as the compiler reads it.
pub open spec fn element_value(parent_key: Seq<char>, e: JsonValue) -> JsonValue {
    if is_boolean_schema_array_key(parent_key) {
        convert_boolean_schema_spec(e)
    } else {
        e
    }
}

/// A schema written as a boolean weighs more than the object it stands for.
pub proof fn lemma_convert_weight(raw: JsonValue)
    ensures
        weight(convert_boolean_schema_spec(raw)) <= weight(raw),
{
    let def = convert_boolean_schema_spec(raw);
    match raw {
        JsonValue::Bool(true) => {
            assert(members_weight_of(def) == 0);
        },
        JsonValue::Bool(false) => {
            let inner = JsonValue::Object(Seq::<MemberValue>::empty());
            assert(def.members().len() == 1);
            assert(def.members()[0].value == inner);
            assert(crate::json::members_weight(inner, 0) == 0);
            assert(weight(inner) == 1);
            assert(crate::json::members_weight(def, 0) == 0);
            assert(crate::json::members_weight(def, 1) == 1);
        },
        _ => {},
    }
}

/// The weight of the members of an object.
pub open spec fn members_weight_of(def: JsonValue) -> nat {
    crate::json::members_weight(def, def.members().len())
}

/// The compilation of the members of the object `def` from member `i` on.
pub open spec fn object_children(
    def: JsonValue,
    i: nat,
    url: Seq<char>,
    fragment: Seq<Seq<char>>,
    parent_key: Seq<char>,
    settings: SettingsModel,
    walked: Walked,
) -> Result<Walked, SchemaErrorModel>
    decreases weight(def), 0nat, def.members().len() - i,
{
    if i >= def.members().len() {
        Ok(walked)
    } else {
        let m = def.members()[i as int];
        if !member_is_walked(parent_key, m) {
            object_children(def, i + 1, url, fragment, parent_key, settings, walked)
        } else {
            let segment = encode_spec(m.key);
            proof {
                lemma_member_weight(def, i as int);
            }
            match compile_sub_spec(
                m.value,
                url,
                fragment.push(segment),
                m.key,
                walked.scopes,
                settings,
                member_is_schema(parent_key, m.key),
            ) {
                Err(e) => Err(e),
                Ok(c) => object_children(
                    def,
                    i + 1,
                    url,
                    fragment,
                    parent_key,
                    settings,
                    Walked {
                        tree: walked.tree.push(ChildModel { key: segment, node: c.node }),
                        scopes: c.scopes,
                    },
                ),
            }
        }
    }
}

/// The compilation of the elements of the array `def` from element `i` on.
pub open spec fn array_children(
    def: JsonValue,
    i: nat,
    url: Seq<char>,
    fragment: Seq<Seq<char>>,
    parent_key: Seq<char>,
    settings: SettingsModel,
    walked: Walked,
) -> Result<Walked, SchemaErrorModel>
    decreases weight(def), 0nat, def.elements().len() - i,
{
    if i >= def.elements().len() {
        Ok(walked)
    } else {
        let value = element_value(parent_key, def.elements()[i as int]);
        if !(value is Object || value is Array) {
            array_children(def, i + 1, url, fragment, parent_key, settings, walked)
        } else {
            let segment = decimal_spec(i);
            proof {
                lemma_element_weight(def, i as int);
                lemma_convert_weight(def.elements()[i as int]);
            }
            match compile_sub_spec(
                value,
                url,
                fragment.push(segment),
                segment,
                walked.scopes,
                settings,
                true,
            ) {
                Err(e) => Err(e),
                Ok(c) => array_children(
                    def,
                    i + 1,
                    url,
                    fragment,
                    parent_key,
                    settings,
                    Walked {
                        tree: walked.tree.push(ChildModel { key: segment, node: c.node }),
                        scopes: c.scopes,
                    },
                ),
            }
        }
    }
}

/// The table `scopes` with the identifier `id`, if the node declares one,
/// bound to the path of the node. An identifier that is bound already is an
/// error.
pub open spec fn register(
    scopes: Map<Seq<char>, Seq<Seq<char>>>,
    id: Option<Seq<char>>,
    fragment: Seq<Seq<char>>,
) -> Result<Map<Seq<char>, Seq<Seq<char>>>, SchemaErrorModel> {
    match id {
        Some(i) => if scopes.dom().contains(i) {
            Err(SchemaErrorModel::IdConflicts)
        } else {
            Ok(scopes.insert(i, fragment))
        },
        None => Ok(scopes),
    }
}

/// The compilation of the node `raw`, which stands under the key `parent_key`
/// at the path `fragment`, with `url` the identifier that relative identifiers
/// are read against.
///
/// A boolean is read as the object it stands for. The nodes below are
/// compiled first, against the node's own identifier where it declares one;
/// then the identifier is entered in the table; then the keywords of the node
/// are compiled. A node that is no schema has neither identifier nor checks.
pub open spec fn compile_sub_spec(
    raw: JsonValue,
    url: Seq<char>,
    fragment: Seq<Seq<char>>,
    parent_key: Seq<char>,
    scopes: Map<Seq<char>, Seq<Seq<char>>>,
    settings: SettingsModel,
    is_schema: bool,
) -> Result<Compiled, SchemaErrorModel>
    decreases weight(raw), 1nat, 0nat,
{
    let def = convert_boolean_schema_spec(raw);
    let id_found = if is_schema {
        parse_url_key_with_base_spec("$id"@, def, url)
    } else {
        Ok(None)
    };
    let schema_found = if is_schema {
        parse_url_key_spec("$schema"@, def)
    } else {
        Ok(None)
    };
    match (id_found, schema_found) {
        (Err(e), _) => Err(e),
        (Ok(_), Err(e)) => Err(e),
        (Ok(id), Ok(schema)) => {
            let base = match id {
                Some(i) => i,
                None => url,
            };
            let start = Walked { tree: Seq::empty(), scopes };
            proof {
                lemma_convert_weight(raw);
            }
            let children = match def {
                JsonValue::Object(_) => object_children(
                    def,
                    0,
                    base,
                    fragment,
                    parent_key,
                    settings,
                    start,
                ),
                JsonValue::Array(_) => array_children(
                    def,
                    0,
                    base,
                    fragment,
                    parent_key,
                    settings,
                    start,
                ),
                _ => Ok(start),
            };
            match children {
                Err(e) => Err(e),
                Ok(walked) => match register(walked.scopes, id, fragment) {
                    Err(e) => Err(e),
                    Ok(table) => {
                        let validators = if is_schema && def is Object {
                            compile_keywords_spec(def, WalkModel { url, fragment }, settings)
                        } else {
                            Ok(Seq::empty())
                        };
                        match validators {
                            Err(e) => Err(e),
                            Ok(validators) => Ok(
                                Compiled {
                                    node: SchemaModel {
                                        id,
                                        schema,
                                        source: def,
                                        tree: walked.tree,
                                        validators,
                                        scopes: Map::empty(),
                                    },
                                    scopes: table,
                                },
                            ),
                        }
                    },
                },
            }
        },
    }
}

/// The compilation of the document `raw` under the identifier `id`.
///
/// A boolean is read as the object it stands for; any other document that is
/// no object is refused. The members are compiled first, then the keywords of
/// the document itself. The root holds the table of the identifiers that were
/// declared below it.
pub open spec fn compile_root_spec(raw: JsonValue, id: Seq<char>, settings: SettingsModel) -> Result<
    SchemaModel,
    SchemaErrorModel,
> {
    let def = convert_boolean_schema_spec(raw);
    if !(def is Object) {
        Err(SchemaErrorModel::NotAnObject)
    } else {
        match parse_url_key_spec("$schema"@, def) {
            Err(e) => Err(e),
            Ok(schema) => match object_children(
                def,
                0,
                id,
                Seq::empty(),
                Seq::empty(),
                settings,
                Walked { tree: Seq::empty(), scopes: Map::empty() },
            ) {
                Err(e) => Err(e),
                Ok(walked) => match compile_keywords_spec(
                    def,
                    WalkModel { url: id, fragment: Seq::empty() },
                    settings,
                ) {
                    Err(e) => Err(e),
                    Ok(validators) => Ok(
                        SchemaModel {
                            id: Some(id),
                            schema,
                            source: def,
                            tree: walked.tree,
                            validators,
                            scopes: walked.scopes,
                        },
                    ),
                },
            },
        }
    }
}

/// The identifier that a document is compiled under, as far as the document
/// and the caller decide it: the one that the caller gives, or else the one
/// under `$id`. Where there is neither, a fresh one is made.
pub open spec fn root_id_spec(raw: JsonValue, external_id: Option<Seq<char>>) -> Result<
    Option<Seq<char>>,
    SchemaErrorModel,
> {
    match external_id {
        Some(id) => Ok(Some(id)),
        None => parse_url_key_spec("$id"@, convert_boolean_schema_spec(raw)),
    }
}

/// What compiling `def` gave, held against what it should give where the
/// fresh identifier was made of the random identifier `t`: an error about the
/// URL where `t` gave none, and else what compiling under that identifier
/// gives.
pub open spec fn compiled_afresh(
    r: Result<Schema, SchemaError>,
    def: JsonValue,
    settings: SettingsModel,
    t: Seq<char>,
) -> bool {
    match id_from_uuid_spec(t) {
        None => r matches Err(e) && e@ is UrlParseError,
        Some(id) => schema_result_view(r) == compile_root_spec(def, id, settings),
    }
}

/// The model of what a compilation gave.
pub open spec fn schema_result_view(r: Result<Schema, SchemaError>) -> Result<
    SchemaModel,
    SchemaErrorModel,
> {
    match r {
        Ok(s) => Ok(s@),
        Err(e) => Err(e@),
    }
}

/// The model of the checks that a compilation gave.
pub open spec fn validators_result_view(r: Result<Vec<Validator>, SchemaError>) -> Result<
    Seq<ValidatorModel>,
    SchemaErrorModel,
> {
    match r {
        Ok(v) => Ok(validator_models(v@)),
        Err(e) => Err(e@),
    }
}

/// The models of the nodes below a node.
pub closed spec fn tree_models(tree: Seq<Child>) -> Seq<ChildModel> {
    Seq::new(tree.len(), |i: int| ChildModel { key: tree[i].key@, node: tree[i].node@ })
}

/// What compiling a node gave, held against what it should give.
pub open spec fn sub_result_matches(
    r: Result<Schema, SchemaError>,
    table: Map<Seq<char>, Seq<Seq<char>>>,
    expected: Result<Compiled, SchemaErrorModel>,
) -> bool {
    match expected {
        Ok(c) => r matches Ok(s) && s@ == c.node && table == c.scopes,
        Err(e) => r matches Err(x) && x@ == e,
    }
}

impl Schema {
    /// Ends the compilation of a node's keywords.
    #[verifier::loop_isolation(false)]
    fn finish_keywords(
        settings: &CompilationSettings<'_>,
        validators: Vec<Validator>,
        not_consumed: Vec<String>,
    ) -> (r: Result<Vec<Validator>, SchemaError>)
        ensures
            validators_result_view(r) == finish_keywords(
                settings@,
                validator_models(validators@),
                views(not_consumed@),
            ),
    {
        if settings.ban_unknown_keywords {
            let ghost unknown = views(not_consumed@);
            let mut i: usize = 0;
            assert(unknown.skip(0) == unknown);
            while i < not_consumed.len()
                invariant
                    i <= not_consumed.len(),
                    unknown == views(not_consumed@),
                    first_banned(unknown) == first_banned(unknown.skip(i as int)),
                decreases not_consumed.len() - i,
            {
                proof {
                    let rest = unknown.skip(i as int);
                    assert(rest[0] == not_consumed[i as int]@);
                    assert(rest.drop_first() == unknown.skip(i + 1));
                }
                if !allowed_unknown_key(not_consumed[i].as_str()) {
                    return Err(SchemaError::UnknownKey(not_consumed[i].clone()));
                }
                i = i + 1;
            }
        }
        Ok(validators)
    }

    /// Compiles the keywords of the object `def`.
    #[verifier::loop_isolation(false)]
    fn compile_keywords(
        def: &Json,
        context: &WalkContext<'_>,
        settings: &CompilationSettings<'_>,
    ) -> (r: Result<Vec<Validator>, SchemaError>)
        requires
            def@ is Object,
        ensures
            validators_result_view(r) == compile_keywords_spec(def@, context@, settings@),
    {
        let members = match def.as_object() {
            Some(members) => members,
            None => {
                return Ok(Vec::new());
            },
        };
        let ghost all = def@.members();
        let mut keys = KeySet::new();
        let mut i: usize = 0;
        assert(key_set_items(keys) =~= keys_of(all.take(0)));
        while i < members.len()
            invariant
                i <= members.len(),
                all == def@.members(),
                all.len() == members.len(),
                forall|k: int| 0 <= k < members.len() ==> all[k] == members[k]@,
                key_set_items(keys) == keys_of(all.take(i as int)),
            decreases members.len() - i,
        {
            keys.insert(members[i].key.clone());
            proof {
                let before = all.take(i as int);
                let after = all.take(i + 1);
                assert forall|k: Seq<char>| keys_of(after).contains(k) <==> (keys_of(
                    before,
                ).contains(k) || k == members[i as int].key@) by {
                    if keys_of(after).contains(k) {
                        let j = choose|j: int| 0 <= j < after.len() && #[trigger] after[j].key == k;
                        if j < i {
                            assert(before[j].key == k);
                        }
                    }
                    if keys_of(before).contains(k) {
                        let j = choose|j: int|
                            0 <= j < before.len() && #[trigger] before[j].key == k;
                        assert(after[j].key == k);
                    }
                    if k == members[i as int].key@ {
                        assert(after[i as int].key == k);
                    }
                }
                assert(key_set_items(keys) =~= keys_of(after));
            }
            i = i + 1;
        }
        assert(all.take(members.len() as int) == all);
        let mut validators: Vec<Validator> = Vec::new();
        let mut not_consumed: Vec<String> = Vec::new();
        let ghost goal = compile_keywords_spec(def@, context@, settings@);
        let mut i: usize = 0;
        assert(validator_models(validators@) == Seq::<ValidatorModel>::empty());
        assert(views(not_consumed@) == Seq::<Seq<char>>::empty());
        while i < members.len()
            invariant
                i <= members.len(),
                all == def@.members(),
                all.len() == members.len(),
                forall|k: int| 0 <= k < members.len() ==> all[k] == members[k]@,
                goal == compile_keywords_spec(def@, context@, settings@),
                goal == keywords_from(
                    def@,
                    context@,
                    settings@,
                    i as nat,
                    key_set_items(keys),
                    validator_models(validators@),
                    views(not_consumed@),
                ),
            decreases members.len() - i,
        {
            let key = &members[i].key;
            assert(all[i as int].key == key@);
            if keys.contains(key.as_str()) {
                match settings.keywords.get(key.as_str()) {
                    Some(keyword) => {
                        assert(settings@.keywords[key@] == keyword@);
                        keyword.consume(&mut keys);
                        let is_exclusive_keyword = keyword.keyword.is_exclusive();
                        let found = match keyword.keyword.compile(def, context) {
                            Ok(found) => found,
                            Err(e) => {
                                return Err(e);
                            },
                        };
                        let ghost prior = validators@;
                        match found {
                            Some(validator) => {
                                if is_exclusive_keyword {
                                    validators = Vec::new();
                                    validators.push(validator);
                                    assert(validator_models(validators@) == seq![validator@]);
                                } else {
                                    validators.push(validator);
                                    assert(validator_models(validators@) == validator_models(
                                        prior,
                                    ).push(validator@));
                                }
                            },
                            None => {},
                        }
                        if is_exclusive_keyword {
                            return Self::finish_keywords(settings, validators, not_consumed);
                        }
                    },
                    None => {
                        keys.remove(key.as_str());
                        if settings.ban_unknown_keywords {
                            let ghost prior = not_consumed@;
                            not_consumed.push(key.clone());
                            assert(views(not_consumed@) == views(prior).push(key@));
                        }
                    },
                }
            }
            i = i + 1;
        }
        Self::finish_keywords(settings, validators, not_consumed)
    }

    /// Compiles the node `raw`, which stands under the key `parent_key` at
    /// the path of `context`, and enters the identifiers that are declared in
    /// it in `scopes`.
    #[verifier::loop_isolation(false)]
    fn compile_sub(
        raw: Json,
        context: &WalkContext<'_>,
        parent_key: &str,
        scopes: &mut Table<Vec<String>>,
        settings: &CompilationSettings<'_>,
        is_schema: bool,
    ) -> (r: Result<Schema, SchemaError>)
        ensures
            sub_result_matches(
                r,
                scopes_model(*final(scopes)),
                compile_sub_spec(
                    raw@,
                    context@.url,
                    context@.fragment,
                    parent_key@,
                    scopes_model(*old(scopes)),
                    settings@,
                    is_schema,
                ),
            ),
        decreases weight(raw@), 1nat, 0nat,
    {
        let ghost raw_model = raw@;
        let ghost expected = compile_sub_spec(
            raw@,
            context@.url,
            context@.fragment,
            parent_key@,
            scopes_model(*old(scopes)),
            settings@,
            is_schema,
        );
        let def = convert_boolean_schema(raw);
        proof {
            lemma_convert_weight(raw_model);
        }
        let id = if is_schema {
            match parse_url_key_with_base("$id", &def, context.url) {
                Ok(id) => id,
                Err(e) => {
                    return Err(e);
                },
            }
        } else {
            None
        };
        let schema = if is_schema {
            match parse_url_key("$schema", &def) {
                Ok(schema) => schema,
                Err(e) => {
                    return Err(e);
                },
            }
        } else {
            None
        };
        let base: &Uri = match &id {
            Some(i) => i,
            None => context.url,
        };
        let mut tree: Vec<Child> = Vec::new();
        let ghost start = Walked { tree: Seq::empty(), scopes: scopes_model(*old(scopes)) };
        assert(tree_models(tree@) == Seq::<ChildModel>::empty());
        match &def {
            Json::Object(members) => {
                let ghost goal = object_children(
                    def@,
                    0,
                    base@,
                    context@.fragment,
                    parent_key@,
                    settings@,
                    start,
                );
                let mut i: usize = 0;
                while i < members.len()
                    invariant
                        i <= members.len(),
                        def == Json::Object(*members),
                        def@.members().len() == members.len(),
                        forall|k: int| 0 <= k < members.len() ==> def@.members()[k] == members[k]@,
                        weight(def@) <= weight(raw_model),
                        goal == object_children(
                            def@,
                            i as nat,
                            base@,
                            context@.fragment,
                            parent_key@,
                            settings@,
                            Walked { tree: tree_models(tree@), scopes: scopes_model(*scopes) },
                        ),
                    decreases members.len() - i,
                {
                    let key = &members[i].key;
                    let value = &members[i].value;
                    assert(def@.members()[i as int] == members[i as int]@);
                    let walked = value.is_container() && (property_key(parent_key) || !final_key(
                        key.as_str(),
                    ));
                    if walked {
                        let segment = encode(key.as_str());
                        let mut current_fragment = clone_strings(&context.fragment);
                        let ghost prior_fragment = current_fragment@;
                        current_fragment.push(segment.clone());
                        assert(views(current_fragment@) == views(prior_fragment).push(segment@));
                        let child_is_schema = property_key(parent_key) || !non_schema_key(
                            key.as_str(),
                        );
                        let child_context = WalkContext { url: base, fragment: current_fragment };
                        proof {
                            lemma_member_weight(def@, i as int);
                        }
                        let ghost prior_tree = tree@;
                        let scheme = match Self::compile_sub(
                            value.clone(),
                            &child_context,
                            key.as_str(),
                            scopes,
                            settings,
                            child_is_schema,
                        ) {
                            Ok(scheme) => scheme,
                            Err(e) => {
                                return Err(e);
                            },
                        };
                        tree.push(Child { key: segment, node: scheme });
                        assert(tree_models(tree@) == tree_models(prior_tree).push(
                            ChildModel { key: segment@, node: scheme@ },
                        ));
                    }
                    i = i + 1;
                }
            },
            Json::Array(elements) => {
                let ghost goal = array_children(
                    def@,
                    0,
                    base@,
                    context@.fragment,
                    parent_key@,
                    settings@,
                    start,
                );
                let mut i: usize = 0;
                while i < elements.len()
                    invariant
                        i <= elements.len(),
                        def == Json::Array(*elements),
                        def@.elements().len() == elements.len(),
                        forall|k: int|
                            0 <= k < elements.len() ==> def@.elements()[k] == elements[k]@,
                        weight(def@) <= weight(raw_model),
                        goal == array_children(
                            def@,
                            i as nat,
                            base@,
                            context@.fragment,
                            parent_key@,
                            settings@,
                            Walked { tree: tree_models(tree@), scopes: scopes_model(*scopes) },
                        ),
                    decreases elements.len() - i,
                {
                    assert(def@.elements()[i as int] == elements[i as int]@);
                    let mut value = elements[i].clone();
                    if boolean_schema_array_key(parent_key) {
                        value = convert_boolean_schema(value);
                    }
                    if value.is_object() || value.is_array() {
                        let segment = decimal(i);
                        let mut current_fragment = clone_strings(&context.fragment);
                        let ghost prior_fragment = current_fragment@;
                        current_fragment.push(segment.clone());
                        assert(views(current_fragment@) == views(prior_fragment).push(segment@));
                        let child_context = WalkContext { url: base, fragment: current_fragment };
                        proof {
                            lemma_element_weight(def@, i as int);
                            lemma_convert_weight(def@.elements()[i as int]);
                        }
                        let ghost prior_tree = tree@;
                        let scheme = match Self::compile_sub(
                            value,
                            &child_context,
                            segment.as_str(),
                            scopes,
                            settings,
                            true,
                        ) {
                            Ok(scheme) => scheme,
                            Err(e) => {
                                return Err(e);
                            },
                        };
                        tree.push(Child { key: segment, node: scheme });
                        assert(tree_models(tree@) == tree_models(prior_tree).push(
                            ChildModel { key: segment@, node: scheme@ },
                        ));
                    }
                    i = i + 1;
                }
            },
            _ => {},
        }
        match &id {
            Some(i) => {
                if scopes.contains_key(i.as_str()) {
                    return Err(SchemaError::IdConflicts);
                }
                let ghost before = scopes_model(*scopes);
                let path = clone_strings(&context.fragment);
                scopes.insert(i.as_str().to_string(), path);
                assert(scopes_model(*scopes) =~= before.insert(i@, context@.fragment));
            },
            None => {},
        }
        let validators = if is_schema && def.is_object() {
            match Self::compile_keywords(&def, context, settings) {
                Ok(validators) => validators,
                Err(e) => {
                    return Err(e);
                },
            }
        } else {
            let validators: Vec<Validator> = Vec::new();
            assert(validator_models(validators@) == Seq::<ValidatorModel>::empty());
            validators
        };
        let node = Schema { id, schema, source: def, tree, validators, scopes: Table::new() };
        proof {
            assert(node@.tree =~= tree_models(node.tree@));
            assert(node@.scopes =~= Map::empty());
        }
        Ok(node)
    }

    /// Compiles the document `raw` under the identifier `id`.
    #[verifier::loop_isolation(false)]
    pub fn compile_with_id(raw: Json, id: Uri, settings: &CompilationSettings<'_>) -> (r: Result<
        Schema,
        SchemaError,
    >)
        ensures
            schema_result_view(r) == compile_root_spec(raw@, id@, settings@),
    {
        let def = convert_boolean_schema(raw);
        let members = match &def {
            Json::Object(members) => members,
            _ => {
                return Err(SchemaError::NotAnObject);
            },
        };
        let schema = match parse_url_key("$schema", &def) {
            Ok(schema) => schema,
            Err(e) => {
                return Err(e);
            },
        };
        let mut scopes: Table<Vec<String>> = Table::new();
        let mut tree: Vec<Child> = Vec::new();
        let ghost start = Walked { tree: Seq::empty(), scopes: Map::empty() };
        let ghost goal = object_children(def@, 0, id@, Seq::empty(), Seq::empty(), settings@, start);
        assert(tree_models(tree@) == Seq::<ChildModel>::empty());
        assert(scopes_model(scopes) =~= Map::empty());
        let mut i: usize = 0;
        proof {
            reveal_strlit("");
        }
        while i < members.len()
            invariant
                i <= members.len(),
                def == Json::Object(*members),
                ""@ == Seq::<char>::empty(),
                def@.members().len() == members.len(),
                forall|k: int| 0 <= k < members.len() ==> def@.members()[k] == members[k]@,
                goal == object_children(
                    def@,
                    i as nat,
                    id@,
                    Seq::empty(),
                    Seq::empty(),
                    settings@,
                    Walked { tree: tree_models(tree@), scopes: scopes_model(scopes) },
                ),
            decreases members.len() - i,
        {
            let key = &members[i].key;
            let value = &members[i].value;
            assert(def@.members()[i as int] == members[i as int]@);
            let walked = value.is_container() && (property_key("") || !final_key(key.as_str()));
            if walked {
                let segment = encode(key.as_str());
                let mut fragment: Vec<String> = Vec::new();
                fragment.push(segment.clone());
                assert(views(fragment@) == Seq::<Seq<char>>::empty().push(segment@));
                let child_is_schema = property_key("") || !non_schema_key(key.as_str());
                let context = WalkContext { url: &id, fragment };
                let ghost prior_tree = tree@;
                let scheme = match Self::compile_sub(
                    value.clone(),
                    &context,
                    key.as_str(),
                    &mut scopes,
                    settings,
                    child_is_schema,
                ) {
                    Ok(scheme) => scheme,
                    Err(e) => {
                        return Err(e);
                    },
                };
                tree.push(Child { key: segment, node: scheme });
                assert(tree_models(tree@) == tree_models(prior_tree).push(
                    ChildModel { key: segment@, node: scheme@ },
                ));
            }
            i = i + 1;
        }
        let root_context = WalkContext { url: &id, fragment: Vec::new() };
        assert(root_context@.fragment == Seq::<Seq<char>>::empty());
        let validators = match Self::compile_keywords(&def, &root_context, settings) {
            Ok(validators) => validators,
            Err(e) => {
                return Err(e);
            },
        };
        let node = Schema { id: Some(id), schema, source: def, tree, validators, scopes };
        proof {
            assert(node@.tree =~= tree_models(node.tree@));
        }
        Ok(node)
    }

    /// Compiles the document `def`: under `external_id` where the caller
    /// gives one, else under the identifier that the document declares, else
    /// under a fresh one.
    fn compile(def: Json, external_id: Option<Uri>, settings: CompilationSettings<'_>) -> (r: Result<
        Schema,
        SchemaError,
    >)
        ensures
            !(convert_boolean_schema_spec(def@) is Object) ==> schema_result_view(r) == Err::<
                SchemaModel,
                SchemaErrorModel,
            >(SchemaErrorModel::NotAnObject),
            convert_boolean_schema_spec(def@) is Object ==> match root_id_spec(
                def@,
                option_uri_view(external_id),
            ) {
                Err(e) => schema_result_view(r) == Err::<SchemaModel, SchemaErrorModel>(e),
                Ok(Some(id)) => schema_result_view(r) == compile_root_spec(def@, id, settings@),
                Ok(None) => exists|t: Seq<char>|
                    is_uuid_text(t) && #[trigger] compiled_afresh(r, def@, settings@, t),
            },
    {
        let ghost raw_model = def@;
        let def = convert_boolean_schema(def);
        if !def.is_object() {
            return Err(SchemaError::NotAnObject);
        }
        proof {
            assert(convert_boolean_schema_spec(def@) == def@);
        }
        let ghost mut made_of: Seq<char> = Seq::empty();
        let id = match external_id {
            Some(id) => id,
            None => match parse_url_key("$id", &def) {
                Err(e) => {
                    return Err(e);
                },
                Ok(Some(id)) => id,
                Ok(None) => {
                    let generated = generate_id();
                    proof {
                        made_of = choose|t: Seq<char>|
                            is_uuid_text(t) && id_view(generated) == #[trigger] id_from_uuid_spec(
                                t,
                            );
                    }
                    match generated {
                        Ok(id) => id,
                        Err(e) => {
                            let r = Err(SchemaError::UrlParseError(e));
                            assert(compiled_afresh(r, raw_model, settings@, made_of));
                            return r;
                        },
                    }
                },
            },
        };
        proof {
            assert(compile_root_spec(def@, id@, settings@) == compile_root_spec(
                raw_model,
                id@,
                settings@,
            ));
        }
        let r = Self::compile_with_id(def, id, &settings);
        proof {
            if root_id_spec(raw_model, option_uri_view(external_id)) == Ok::<
                Option<Seq<char>>,
                SchemaErrorModel,
            >(None) {
                assert(compiled_afresh(r, raw_model, settings@, made_of));
            }
        }
        r
    }
}

/// Compiles the document `def`: under `external_id` where the caller gives
/// one, else under the identifier that the document declares under `$id`,
/// else under a fresh one.
///
/// A document that is neither an object nor a boolean is refused with
/// `NotAnObject`. Where the identifier is given or declared, the result is
/// that of `compile_root_spec` under it. Where it is made afresh, the result
/// is what `compiled_afresh` says for the random identifier it was made of:
/// an error about the URL where that gave no identifier, and else what
/// `compile_root_spec` gives under the identifier.
pub fn compile(def: Json, external_id: Option<Uri>, settings: CompilationSettings<'_>) -> (r: Result<
    Schema,
    SchemaError,
>)
    ensures
        !(convert_boolean_schema_spec(def@) is Object) ==> schema_result_view(r) == Err::<
            SchemaModel,
            SchemaErrorModel,
        >(SchemaErrorModel::NotAnObject),
        convert_boolean_schema_spec(def@) is Object ==> match root_id_spec(
            def@,
            option_uri_view(external_id),
        ) {
            Err(e) => schema_result_view(r) == Err::<SchemaModel, SchemaErrorModel>(e),
            Ok(Some(id)) => schema_result_view(r) == compile_root_spec(def@, id, settings@),
            Ok(None) => exists|t: Seq<char>|
                is_uuid_text(t) && #[trigger] compiled_afresh(r, def@, settings@, t),
        },
{
    Schema::compile(def, external_id, settings)
}

} // verus!
