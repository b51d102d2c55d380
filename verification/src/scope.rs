//! The scope: the compiled documents, found by identifier, and the keywords
//! that documents are compiled with.

use crate::helpers::{serialize_schema_path, serialize_schema_path_spec};
use crate::json::{capped, capped_sum, weight, Json, JsonValue};
use crate::keywords::format::{default_formats_spec, with_formats_spec, Format, FormatKind};
use crate::keywords::{
    bound, decouple_keyword, default_spec, key_views, registry_model, single, ConsumerModel,
    Keyword, KeywordMap, KeywordModel,
};
use crate::schema::{
    node_count,
    compile_root_spec, root_id_spec, CompilationSettings, Schema, SchemaError,
    SchemaErrorModel, SchemaModel, ScopedSchema, SettingsModel,
};
use crate::table::Table;
use crate::uri::Uri;
use vstd::prelude::*;

verus! {

broadcast use {vstd::seq::group_seq_axioms, vstd::std_specs::vec::group_vec_axioms};

/// The compiled documents and the keywords.
pub struct Scope {
    keywords: KeywordMap,
    schemes: Table<Schema>,
    hops: usize,
}

/// The model of a [`Scope`].
pub struct ScopeModel {
    /// The keyword that answers to each key.
    pub keywords: Map<Seq<char>, ConsumerModel>,
    /// The compiled documents, each under the base of its identifier.
    pub roots: Map<Seq<char>, SchemaModel>,
    /// The compiled documents in the order in which they were compiled.
    pub order: Seq<SchemaModel>,
    /// One more than the nodes of the compiled documents, as far as the
    /// count can be held: more references than a validation follows one
    /// inside the other on one value, unless it comes by a node twice.
    pub hops: nat,
}

impl View for Scope {
    type V = ScopeModel;

    closed spec fn view(&self) -> ScopeModel {
        ScopeModel {
            keywords: registry_model(self.keywords),
            roots: Map::new(
                |k: Seq<char>| self.schemes.has(k),
                |k: Seq<char>| self.schemes.entries()[k]@,
            ),
            order: self.schemes.order().map_values(|s: Schema| s@),
            hops: self.hops as nat,
        }
    }
}

/// How many references a validation of `value` follows one inside the other
/// at most: as many as `value` weighs, for each node of the scope and once
/// more, as far as the count can be held.
///
/// A reference leads either to a part of the value or, with the same value,
/// to another node. So a validation that follows more references than this
/// has come by one node twice with the same value: it goes round in a circle
/// and would never end.
pub open spec fn bound_for(scope: ScopeModel, value: JsonValue) -> nat {
    capped(scope.hops * weight(value))
}

/// The first node, in the order of `order`, that declared `id` for itself.
pub open spec fn first_declared(order: Seq<SchemaModel>, id: Seq<char>) -> Option<SchemaModel>
    decreases order.len(),
{
    if order.len() == 0 {
        None
    } else {
        match order[0].resolve(id) {
            Some(node) => Some(node),
            None => first_declared(order.drop_first(), id),
        }
    }
}

impl ScopeModel {
    /// What the compiler is told where documents are compiled into the scope.
    pub open spec fn settings(self, ban_unknown: bool) -> SettingsModel {
        SettingsModel { keywords: self.keywords, ban_unknown_keywords: ban_unknown }
    }

    /// The scope with the document `node` added under the base of its
    /// identifier. An identifier with a path is refused, and so is one whose
    /// base is taken.
    pub open spec fn add(self, node: SchemaModel) -> Result<ScopeModel, SchemaErrorModel> {
        match node.id {
            Some(id) => {
                let (base, fragment) = serialize_schema_path_spec(id);
                if fragment is Some {
                    Err(SchemaErrorModel::WrongId)
                } else if self.roots.dom().contains(base) {
                    Err(SchemaErrorModel::IdConflicts)
                } else {
                    Ok(
                        ScopeModel {
                            keywords: self.keywords,
                            roots: self.roots.insert(base, node),
                            order: self.order.push(node),
                            hops: capped(self.hops + node_count(node)),
                        },
                    )
                }
            },
            None => Err(SchemaErrorModel::WrongId),
        }
    }

    /// The document or the node that goes by the name `base`: the document
    /// compiled under it, or else the first node that declared it.
    pub open spec fn named(self, base: Seq<char>) -> Option<SchemaModel> {
        if self.roots.dom().contains(base) {
            Some(self.roots[base])
        } else {
            first_declared(self.order, base)
        }
    }

    /// The node that the identifier `uri` stands for: what goes by the name of
    /// its base, and from there the node that its path leads to.
    pub open spec fn resolve(self, uri: Seq<char>) -> Option<SchemaModel> {
        let (base, fragment) = serialize_schema_path_spec(uri);
        match self.named(base) {
            Some(node) => match fragment {
                Some(f) => node.resolve_fragment(f),
                None => Some(node),
            },
            None => None,
        }
    }
}

impl Scope {
    /// One more than the nodes of the compiled documents, as far as the
    /// count can be held.
    pub fn hops(&self) -> (r: usize)
        ensures
            r == self@.hops,
    {
        self.hops
    }

    /// How many references a validation of `value` follows one inside the
    /// other at most.
    pub fn bound_for(&self, value: &Json) -> (r: usize)
        ensures
            r == bound_for(self@, value@),
    {
        let part = value.weight();
        let hops = self.hops;
        proof {
            let h = hops as int;
            let p = part as int;
            let w = weight(value@) as int;
            let most = usize::MAX as int;
            assert(most <= 0xffff_ffff_ffff_ffff);
            assert(0 <= h * p <= 0xffff_ffff_ffff_ffff * 0xffff_ffff_ffff_ffff) by (nonlinear_arith)
                requires
                    0 <= h <= 0xffff_ffff_ffff_ffff,
                    0 <= p <= 0xffff_ffff_ffff_ffff,
            ;
            if w > most {
                if h > 0 {
                    assert(h * w >= w && h * p >= p) by (nonlinear_arith)
                        requires
                            h >= 1,
                            w >= 0,
                            p >= 0,
                    ;
                } else {
                    assert(h * w == 0 && h * p == 0) by (nonlinear_arith)
                        requires
                            h == 0,
                    ;
                }
            }
        }
        let product: u128 = hops as u128 * part as u128;
        if product > usize::MAX as u128 {
            usize::MAX
        } else {
            product as usize
        }
    }

    /// The document or the node that goes by the name `base`.
    fn named(&self, base: &str) -> (r: Option<&Schema>)
        ensures
            crate::schema::option_schema_view(r) == self@.named(base@),
    {
        match self.schemes.get(base) {
            Some(schema) => Some(schema),
            None => {
                let order = self.schemes.values();
                let ghost models = self@.order;
                let mut i: usize = 0;
                assert(models.skip(0) == models);
                while i < order.len()
                    invariant
                        i <= order.len(),
                        order@ == self.schemes.order(),
                        models == self@.order,
                        !self.schemes.has(base@),
                        first_declared(models, base@) == first_declared(
                            models.skip(i as int),
                            base@,
                        ),
                    decreases order.len() - i,
                {
                    proof {
                        let rest = models.skip(i as int);
                        assert(rest[0] == order[i as int]@);
                        assert(rest.drop_first() == models.skip(i + 1));
                    }
                    let inner = order[i].resolve(base);
                    if inner.is_some() {
                        return inner;
                    }
                    i = i + 1;
                }
                None
            },
        }
    }

    /// The schema that the identifier `id` stands for.
    pub fn resolve(&self, id: &Uri) -> (r: Option<ScopedSchema<'_, '_>>)
        ensures
            r is Some <==> self@.resolve(id@) is Some,
            r matches Some(s) ==> s.scope_model() == self@ && Some(s.node()) == self@.resolve(id@),
    {
        let (schema_path, fragment) = serialize_schema_path(id);
        match self.named(schema_path.as_str()) {
            Some(schema) => match fragment {
                Some(fragment) => {
                    proof {
                        crate::helpers::lemma_fragment_is_path(id@);
                    }
                    match schema.resolve_fragment(fragment.as_str()) {
                        Some(schema) => Some(ScopedSchema::new(self, schema)),
                        None => None,
                    }
                },
                None => Some(ScopedSchema::new(self, schema)),
            },
            None => None,
        }
    }

    /// A scope with the keywords of the library, `format` among them, and no
    /// document.
    pub fn new() -> (r: Scope)
        ensures
            r@.keywords == single(
                default_spec(),
                "format"@,
                KeywordModel::Format { formats: default_formats_spec() },
            ),
            r@.order.len() == 0,
            forall|k: Seq<char>| !r@.roots.dom().contains(k),
            r@.hops == 1,
    {
        let mut scope = Scope {
            keywords: crate::keywords::default(),
            schemes: Table::new(),
            hops: 1,
        };
        let mut keys: Vec<&'static str> = Vec::new();
        keys.push("format");
        assert(key_views(keys@) == seq!["format"@]);
        scope.add_keyword(keys, Keyword::Format(Format::new()));
        scope
    }

    /// As `new`, with the formats of `more` known under their names besides
    /// those that are known from the start.
    pub fn with_formats(more: Vec<(String, FormatKind)>) -> (r: Scope)
        ensures
            r@.keywords == single(
                default_spec(),
                "format"@,
                KeywordModel::Format { formats: with_formats_spec(default_formats_spec(), more@) },
            ),
            r@.order.len() == 0,
            forall|k: Seq<char>| !r@.roots.dom().contains(k),
            r@.hops == 1,
    {
        let mut scope = Scope {
            keywords: crate::keywords::default(),
            schemes: Table::new(),
            hops: 1,
        };
        let mut keys: Vec<&'static str> = Vec::new();
        keys.push("format");
        assert(key_views(keys@) == seq!["format"@]);
        scope.add_keyword(keys, Keyword::Format(Format::with(more)));
        scope
    }


    /// Binds each of `keys` to `keyword`.
    pub fn add_keyword(&mut self, keys: Vec<&'static str>, keyword: Keyword)
        ensures
            final(self)@ == (ScopeModel {
                keywords: bound(
                    old(self)@.keywords,
                    key_views(keys@),
                    ConsumerModel { keys: key_views(keys@), keyword: keyword@ },
                ),
                ..old(self)@
            }),
    {
        decouple_keyword((keys, keyword), &mut self.keywords);
    }

    /// Adds the compiled document `schema` under the base of the identifier
    /// `id`, which is its own.
    fn add_and_return(&mut self, id: &Uri, schema: Schema) -> (r: Result<
        ScopedSchema<'_, '_>,
        SchemaError,
    >)
        requires
            schema@.id == Some(id@),
        ensures
            match old(self)@.add(schema@) {
                Ok(scope) => r matches Ok(s) && final(self)@ == scope && s.scope_model() == scope
                    && s.node() == schema@,
                Err(e) => r matches Err(x) && x@ == e && final(self)@ == old(self)@,
            },
    {
        let (id_str, fragment) = serialize_schema_path(id);
        if fragment.is_some() {
            return Err(SchemaError::WrongId);
        }
        if !self.schemes.contains_key(id_str.as_str()) {
            let ghost before = self@;
            let ghost node = schema@;
            self.hops = capped_sum(self.hops, schema.node_count());
            self.schemes.insert(id_str.clone(), schema);
            proof {
                assert(self@.roots =~= before.roots.insert(id_str@, node));
                assert(self@.order =~= before.order.push(node));
            }
            match self.schemes.get(id_str.as_str()) {
                Some(added) => Ok(ScopedSchema::new(self, added)),
                None => Err(SchemaError::IdConflicts),
            }
        } else {
            Err(SchemaError::IdConflicts)
        }
    }

    /// Compiles the document `def` under the identifier `id` with the keywords
    /// of the scope, and adds it to the scope under the base of `id`.
    pub fn compile_under(&mut self, def: Json, id: Uri, ban_unknown: bool) -> (r: Result<
        ScopedSchema<'_, '_>,
        SchemaError,
    >)
        ensures
            match compiles_under(old(self)@, def@, id@, ban_unknown) {
                Ok(scope) => r matches Ok(s) && final(self)@ == scope && s.scope_model() == scope
                    && Ok::<SchemaModel, SchemaErrorModel>(s.node()) == compile_root_spec(
                    def@,
                    id@,
                    old(self)@.settings(ban_unknown),
                ),
                Err(e) => r matches Err(x) && x@ == e && final(self)@ == old(self)@,
            },
    {
        let settings = CompilationSettings::new(&self.keywords, ban_unknown);
        let compiled = Schema::compile_with_id(def, id.clone(), &settings);
        match compiled {
            Ok(schema) => self.add_and_return(&id, schema),
            Err(e) => Err(e),
        }
    }

    /// Compiles the document `def` with the keywords of the scope and adds it
    /// to the scope under the base of its identifier: the one that it
    /// declares under `$id`, or else a fresh one.
    ///
    /// Where the document declares its identifier, or is refused before one
    /// is asked for, the outcome is that of `compiles_into`. Where a fresh
    /// identifier is made, the outcome is what `compiled_into_afresh` says
    /// for the random identifier it was made of.
    pub fn compile_and_return(&mut self, def: Json, ban_unknown: bool) -> (r: Result<
        ScopedSchema<'_, '_>,
        SchemaError,
    >)
        ensures
            match r {
                Ok(s) => s.node().id matches Some(id) && Ok::<ScopeModel, SchemaErrorModel>(
                    final(self)@,
                ) == compiles_under(old(self)@, def@, id, ban_unknown)
                    && s.scope_model() == final(self)@
                    && Ok::<SchemaModel, SchemaErrorModel>(s.node()) == compile_root_spec(
                    def@,
                    id,
                    old(self)@.settings(ban_unknown),
                ),
                Err(e) => final(self)@ == old(self)@,
            },
            compiles_into(old(self)@, def@, ban_unknown) matches Some(expected) ==> (match (
                r,
                expected,
            ) {
                (Ok(s), Ok(scope)) => final(self)@ == scope,
                (Err(e), Err(x)) => e@ == x,
                _ => false,
            }),
            compiles_into(old(self)@, def@, ban_unknown) is None ==> exists|t: Seq<char>|
                crate::helpers::is_uuid_text(t) && #[trigger] compiled_into_afresh(
                    old(self)@,
                    def@,
                    ban_unknown,
                    t,
                    error_of(r),
                    final(self)@,
                ),
    {
        let ghost before = self@;
        let converted = crate::helpers::convert_boolean_schema(def);
        if !converted.is_object() {
            return Err(SchemaError::NotAnObject);
        }
        let ghost mut made_of: Seq<char> = Seq::empty();
        let id = match crate::helpers::parse_url_key("$id", &converted) {
            Err(e) => {
                return Err(e);
            },
            Ok(Some(id)) => id,
            Ok(None) => {
                let generated = crate::helpers::generate_id();
                proof {
                    made_of = choose|t: Seq<char>|
                        crate::helpers::is_uuid_text(t) && crate::helpers::id_view(generated)
                            == #[trigger] crate::helpers::id_from_uuid_spec(t);
                }
                match generated {
                    Ok(id) => id,
                    Err(e) => {
                        let r = Err(SchemaError::UrlParseError(e));
                        assert(compiled_into_afresh(
                            before,
                            def@,
                            ban_unknown,
                            made_of,
                            error_of(r),
                            self@,
                        ));
                        return r;
                    },
                }
            },
        };
        proof {
            assert(crate::helpers::convert_boolean_schema_spec(converted@) == converted@);
            assert(compile_root_spec(converted@, id@, self@.settings(ban_unknown))
                == compile_root_spec(def@, id@, self@.settings(ban_unknown)));
        }
        let r = self.compile_under(converted, id, ban_unknown);
        proof {
            let after = match &r {
                Ok(s) => s.scope_model(),
                Err(_) => before,
            };
            if compiles_into(before, def@, ban_unknown) is None {
                assert(compiled_into_afresh(
                    before,
                    def@,
                    ban_unknown,
                    made_of,
                    error_of(r),
                    after,
                ));
            }
        }
        r
    }
}

/// The error that compiling into a scope gave; nothing where it gave a
/// schema.
pub open spec fn error_of(r: Result<ScopedSchema<'_, '_>, SchemaError>) -> Option<
    SchemaErrorModel,
> {
    match r {
        Ok(_) => None,
        Err(e) => Some(e@),
    }
}

/// What compiling `def` into `scope` gave, held against what it should give
/// where the fresh identifier was made of the random identifier `t`. Where
/// `t` gave no identifier, the error is one about the URL and the scope is as
/// it was. Else the outcome is that of `compiles_under` for the identifier:
/// the scope with the document added and no error, or its error and the scope
/// as it was.
pub open spec fn compiled_into_afresh(
    scope: ScopeModel,
    def: JsonValue,
    ban_unknown: bool,
    t: Seq<char>,
    error: Option<SchemaErrorModel>,
    after: ScopeModel,
) -> bool {
    match crate::helpers::id_from_uuid_spec(t) {
        None => error == Some(SchemaErrorModel::UrlParseError) && after == scope,
        Some(id) => match compiles_under(scope, def, id, ban_unknown) {
            Ok(added) => error is None && after == added,
            Err(e) => error == Some(e) && after == scope,
        },
    }
}

/// What compiling `def` into `scope` under the identifier `id` gives: the
/// scope with the compiled document added, or the error.
pub open spec fn compiles_under(scope: ScopeModel, def: JsonValue, id: Seq<char>, ban_unknown: bool) -> Result<
    ScopeModel,
    SchemaErrorModel,
> {
    match compile_root_spec(def, id, scope.settings(ban_unknown)) {
        Err(e) => Err(e),
        Ok(node) => scope.add(node),
    }
}

/// What compiling `def` into `scope` gives, where the document decides its
/// identifier: the scope with the document added, or the error. Nothing is
/// said here of a document that declares no identifier, for which a fresh one
/// is made.
pub open spec fn compiles_into(scope: ScopeModel, def: JsonValue, ban_unknown: bool) -> Option<
    Result<ScopeModel, SchemaErrorModel>,
> {
    if !(crate::helpers::convert_boolean_schema_spec(def) is Object) {
        Some(Err(SchemaErrorModel::NotAnObject))
    } else {
        match root_id_spec(def, None) {
            Err(e) => Some(Err(e)),
            Ok(Some(id)) => Some(compiles_under(scope, def, id, ban_unknown)),
            Ok(None) => None,
        }
    }
}

} // verus!
