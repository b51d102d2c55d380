//! The keywords of a schema, and the registry that finds the keyword for a
//! key.
//!
//! A keyword reads the node it is found in and gives the check that it stands
//! for, or none. The registry binds keys to keywords; one keyword may answer
//! to several keys, and takes them all off the list of keys that are still to
//! be looked at.

use crate::helpers::{alter_fragment_path, alter_fragment_path_spec};
use crate::json::{Json, JsonValue};
use crate::schema::{SchemaError, SchemaErrorModel, WalkContext, WalkModel};
use crate::table::{key_set_items, KeySet, Table};
use crate::text::views;
use crate::uri::Uri;
use crate::validators::{Validator, ValidatorModel};
use vstd::prelude::*;

pub mod const_;
pub mod contains;
pub mod dependencies;
pub mod enum_;
pub mod format;
pub mod items;
pub mod maxmin;
pub mod maxmin_items;
pub mod maxmin_length;
pub mod maxmin_properties;
pub mod multiple_of;
pub mod not;
pub mod of;
pub mod pattern;
pub mod properties;
pub mod property_names;
pub mod ref_;
pub mod required;
pub mod type_;
pub mod unique_items;

verus! {

broadcast use {vstd::seq::group_seq_axioms, vstd::std_specs::vec::group_vec_axioms};

/// The keys that a keyword answers to, and the keyword.
pub type KeywordPair = (Vec<&'static str>, Keyword);

/// What a keyword gives: a check, or none, or the reason why the node is
/// malformed.
pub type KeywordResult = Result<Option<Validator>, SchemaError>;

/// The model of a [`KeywordResult`].
pub type KeywordResultModel = Result<Option<ValidatorModel>, SchemaErrorModel>;

/// The registry: for each key the keyword that answers to it.
pub type KeywordMap = Table<KeywordConsumer>;

/// The model of a [`KeywordResult`].
pub open spec fn result_view(r: KeywordResult) -> KeywordResultModel {
    match r {
        Ok(Some(v)) => Ok(Some(v@)),
        Ok(None) => Ok(None),
        Err(e) => Err(e@),
    }
}

/// A keyword of the caller's own making.
///
/// `compiled` says what the keyword gives for a node, and `compile` is held
/// to it. Of a type that implements the trait the library proves nothing:
/// what it states of a registry with such a keyword holds as far as
/// `compile` does what `compiled` says.
pub trait CustomKeyword {
    /// The check that the keyword gives for the node `def`, which stands at
    /// `ctx`: none, one, or an error.
    spec fn compiled(&self, def: JsonValue, ctx: WalkModel) -> KeywordResultModel;

    /// Reads the keyword out of the node `def`, which stands at `ctx`.
    fn compile(&self, def: &Json, ctx: &WalkContext<'_>) -> (r: KeywordResult)
        ensures
            result_view(r) == self.compiled(def@, ctx@),
    ;
}

/// A keyword: one of the library, or one of the caller's own making.
pub enum Keyword {
    Ref(ref_::Ref),
    AllOf(of::AllOf),
    AnyOf(of::AnyOf),
    OneOf(of::OneOf),
    Not(not::Not),
    Required(required::Required),
    Const(const_::Const),
    Enum(enum_::Enum),
    ExclusiveMaximum(maxmin::ExclusiveMaximum),
    ExclusiveMinimum(maxmin::ExclusiveMinimum),
    MaxItems(maxmin_items::MaxItems),
    MaxLength(maxmin_length::MaxLength),
    MaxProperties(maxmin_properties::MaxProperties),
    Maximum(maxmin::Maximum),
    MinItems(maxmin_items::MinItems),
    MinLength(maxmin_length::MinLength),
    MinProperties(maxmin_properties::MinProperties),
    Minimum(maxmin::Minimum),
    UniqueItems(unique_items::UniqueItems),
    PropertyNames(property_names::PropertyNames),
    Format(format::Format),
    Type(type_::Type),
    Pattern(pattern::Pattern),
    Items(items::Items),
    Properties(properties::Properties),
    Contains(contains::Contains),
    Dependencies(dependencies::Dependencies),
    MultipleOf(multiple_of::MultipleOf),
    /// A keyword of the caller's own making.
    Custom(Box<dyn CustomKeyword>),
    /// A keyword that takes the place of every other keyword of its node.
    Exclusive(Box<Keyword>),
}

/// The model of a [`Keyword`].
pub enum KeywordModel {
    Ref,
    AllOf,
    AnyOf,
    OneOf,
    Not,
    Required,
    Const,
    Enum,
    ExclusiveMaximum,
    ExclusiveMinimum,
    MaxItems,
    MaxLength,
    MaxProperties,
    Maximum,
    MinItems,
    MinLength,
    MinProperties,
    Minimum,
    UniqueItems,
    PropertyNames,
    Format { formats: Map<Seq<char>, format::FormatKind> },
    Type,
    Pattern,
    Items,
    Properties,
    Contains,
    Dependencies,
    MultipleOf,
    /// A keyword of the caller's own making: what it gives for a node.
    Custom { gives: spec_fn(JsonValue, WalkModel) -> KeywordResultModel },
    Exclusive(Box<KeywordModel>),
}

/// The model of a keyword.
pub open spec fn keyword_model(k: Keyword) -> KeywordModel
    decreases k,
{
    match k {
        Keyword::Ref(_) => KeywordModel::Ref,
        Keyword::AllOf(_) => KeywordModel::AllOf,
        Keyword::AnyOf(_) => KeywordModel::AnyOf,
        Keyword::OneOf(_) => KeywordModel::OneOf,
        Keyword::Not(_) => KeywordModel::Not,
        Keyword::Required(_) => KeywordModel::Required,
        Keyword::Const(_) => KeywordModel::Const,
        Keyword::Enum(_) => KeywordModel::Enum,
        Keyword::ExclusiveMaximum(_) => KeywordModel::ExclusiveMaximum,
        Keyword::ExclusiveMinimum(_) => KeywordModel::ExclusiveMinimum,
        Keyword::MaxItems(_) => KeywordModel::MaxItems,
        Keyword::MaxLength(_) => KeywordModel::MaxLength,
        Keyword::MaxProperties(_) => KeywordModel::MaxProperties,
        Keyword::Maximum(_) => KeywordModel::Maximum,
        Keyword::MinItems(_) => KeywordModel::MinItems,
        Keyword::MinLength(_) => KeywordModel::MinLength,
        Keyword::MinProperties(_) => KeywordModel::MinProperties,
        Keyword::Minimum(_) => KeywordModel::Minimum,
        Keyword::UniqueItems(_) => KeywordModel::UniqueItems,
        Keyword::PropertyNames(_) => KeywordModel::PropertyNames,
        Keyword::Format(f) => KeywordModel::Format { formats: f.formats.entries() },
        Keyword::Type(_) => KeywordModel::Type,
        Keyword::Pattern(_) => KeywordModel::Pattern,
        Keyword::Items(_) => KeywordModel::Items,
        Keyword::Properties(_) => KeywordModel::Properties,
        Keyword::Contains(_) => KeywordModel::Contains,
        Keyword::Dependencies(_) => KeywordModel::Dependencies,
        Keyword::MultipleOf(_) => KeywordModel::MultipleOf,
        Keyword::Custom(k) => KeywordModel::Custom {
            gives: |def: JsonValue, ctx: WalkModel| k.compiled(def, ctx),
        },
        Keyword::Exclusive(inner) => KeywordModel::Exclusive(Box::new(keyword_model(*inner))),
    }
}

impl View for Keyword {
    type V = KeywordModel;

    open spec fn view(&self) -> KeywordModel {
        keyword_model(*self)
    }
}

impl KeywordModel {
    /// The check that the keyword gives for the node `def`.
    pub open spec fn compile(self, def: JsonValue, ctx: WalkModel) -> KeywordResultModel
        decreases self,
    {
        match self {
            KeywordModel::Ref => ref_::Ref::compile_spec(def, ctx),
            KeywordModel::AllOf => of::AllOf::compile_spec(def, ctx),
            KeywordModel::AnyOf => of::AnyOf::compile_spec(def, ctx),
            KeywordModel::OneOf => of::OneOf::compile_spec(def, ctx),
            KeywordModel::Not => not::Not::compile_spec(def, ctx),
            KeywordModel::Required => required::Required::compile_spec(def, ctx),
            KeywordModel::Const => const_::Const::compile_spec(def, ctx),
            KeywordModel::Enum => enum_::Enum::compile_spec(def, ctx),
            KeywordModel::ExclusiveMaximum => maxmin::ExclusiveMaximum::compile_spec(def, ctx),
            KeywordModel::ExclusiveMinimum => maxmin::ExclusiveMinimum::compile_spec(def, ctx),
            KeywordModel::MaxItems => maxmin_items::MaxItems::compile_spec(def, ctx),
            KeywordModel::MaxLength => maxmin_length::MaxLength::compile_spec(def, ctx),
            KeywordModel::MaxProperties => maxmin_properties::MaxProperties::compile_spec(def, ctx),
            KeywordModel::Maximum => maxmin::Maximum::compile_spec(def, ctx),
            KeywordModel::MinItems => maxmin_items::MinItems::compile_spec(def, ctx),
            KeywordModel::MinLength => maxmin_length::MinLength::compile_spec(def, ctx),
            KeywordModel::MinProperties => maxmin_properties::MinProperties::compile_spec(def, ctx),
            KeywordModel::Minimum => maxmin::Minimum::compile_spec(def, ctx),
            KeywordModel::UniqueItems => unique_items::UniqueItems::compile_spec(def, ctx),
            KeywordModel::PropertyNames => property_names::PropertyNames::compile_spec(def, ctx),
            KeywordModel::Format { formats } => format::Format::compile_spec(formats, def, ctx),
            KeywordModel::Type => type_::Type::compile_spec(def, ctx),
            KeywordModel::Pattern => pattern::Pattern::compile_spec(def, ctx),
            KeywordModel::Items => items::Items::compile_spec(def, ctx),
            KeywordModel::Properties => properties::Properties::compile_spec(def, ctx),
            KeywordModel::Contains => contains::Contains::compile_spec(def, ctx),
            KeywordModel::Dependencies => dependencies::Dependencies::compile_spec(def, ctx),
            KeywordModel::MultipleOf => multiple_of::MultipleOf::compile_spec(def, ctx),
            KeywordModel::Custom { gives } => gives(def, ctx),
            KeywordModel::Exclusive(inner) => inner.compile(def, ctx),
        }
    }

    /// Whether the keyword takes the place of every other keyword of its
    /// node.
    pub open spec fn is_exclusive(self) -> bool {
        self is Exclusive
    }

    /// Whether the keyword is one of the library's own, as it is or made
    /// exclusive.
    pub open spec fn is_built_in(self) -> bool
        decreases self,
    {
        match self {
            KeywordModel::Custom { .. } => false,
            KeywordModel::Format { formats } => format::formats_are_built_in(formats),
            KeywordModel::Exclusive(inner) => inner.is_built_in(),
            _ => true,
        }
    }

    /// Whether the keyword is one of the library's own and not exclusive.
    pub open spec fn is_plain(self) -> bool {
        self.is_built_in() && !self.is_exclusive()
    }
}

impl Keyword {
    /// The check that the keyword gives for the node `def`.
    pub fn compile(&self, def: &Json, ctx: &WalkContext<'_>) -> (r: KeywordResult)
        ensures
            result_view(r) == self@.compile(def@, ctx@),
        decreases self,
    {
        match self {
            Keyword::Ref(k) => k.compile(def, ctx),
            Keyword::AllOf(k) => k.compile(def, ctx),
            Keyword::AnyOf(k) => k.compile(def, ctx),
            Keyword::OneOf(k) => k.compile(def, ctx),
            Keyword::Not(k) => k.compile(def, ctx),
            Keyword::Required(k) => k.compile(def, ctx),
            Keyword::Const(k) => k.compile(def, ctx),
            Keyword::Enum(k) => k.compile(def, ctx),
            Keyword::ExclusiveMaximum(k) => k.compile(def, ctx),
            Keyword::ExclusiveMinimum(k) => k.compile(def, ctx),
            Keyword::MaxItems(k) => k.compile(def, ctx),
            Keyword::MaxLength(k) => k.compile(def, ctx),
            Keyword::MaxProperties(k) => k.compile(def, ctx),
            Keyword::Maximum(k) => k.compile(def, ctx),
            Keyword::MinItems(k) => k.compile(def, ctx),
            Keyword::MinLength(k) => k.compile(def, ctx),
            Keyword::MinProperties(k) => k.compile(def, ctx),
            Keyword::Minimum(k) => k.compile(def, ctx),
            Keyword::UniqueItems(k) => k.compile(def, ctx),
            Keyword::PropertyNames(k) => k.compile(def, ctx),
            Keyword::Format(k) => k.compile(def, ctx),
            Keyword::Type(k) => k.compile(def, ctx),
            Keyword::Pattern(k) => k.compile(def, ctx),
            Keyword::Items(k) => k.compile(def, ctx),
            Keyword::Properties(k) => k.compile(def, ctx),
            Keyword::Contains(k) => k.compile(def, ctx),
            Keyword::Dependencies(k) => k.compile(def, ctx),
            Keyword::MultipleOf(k) => k.compile(def, ctx),
            Keyword::Custom(k) => k.compile(def, ctx),
            Keyword::Exclusive(inner) => inner.compile(def, ctx),
        }
    }

    /// Whether the keyword takes the place of every other keyword of its
    /// node.
    pub fn is_exclusive(&self) -> (r: bool)
        ensures
            r == self@.is_exclusive(),
    {
        match self {
            Keyword::Exclusive(_) => true,
            _ => false,
        }
    }
}

/// The identifier of the schema that stands at `tail` below the node at `ctx`.
pub open spec fn sub_url_spec(ctx: WalkModel, tail: Seq<char>) -> Seq<char> {
    alter_fragment_path_spec(ctx.url, ctx.escaped_fragment() + seq!['/'] + tail)
}

/// The identifier of the schema that stands at `tail` below the node at `ctx`.
pub fn sub_url(ctx: &WalkContext<'_>, tail: &str) -> (r: Uri)
    ensures
        r@ == sub_url_spec(ctx@, tail@),
{
    let mut path = ctx.escaped_fragment();
    path.append("/");
    path.append(tail);
    proof {
        reveal_strlit("/");
        assert(path@ == ctx@.escaped_fragment() + seq!['/'] + tail@);
    }
    alter_fragment_path(ctx.url.clone(), path)
}

/// A keyword with the keys that it answers to.
pub struct KeywordConsumer {
    pub keys: Vec<String>,
    pub keyword: Keyword,
}

/// The model of a [`KeywordConsumer`].
pub struct ConsumerModel {
    pub keys: Seq<Seq<char>>,
    pub keyword: KeywordModel,
}

impl View for KeywordConsumer {
    type V = ConsumerModel;

    open spec fn view(&self) -> ConsumerModel {
        ConsumerModel { keys: views(self.keys@), keyword: self.keyword@ }
    }
}

/// The model of a registry.
pub open spec fn registry_model(map: KeywordMap) -> Map<Seq<char>, ConsumerModel> {
    Map::new(|k: Seq<char>| map.has(k), |k: Seq<char>| map.entries()[k]@)
}

/// `set` without the keys `keys`.
pub open spec fn consumed(keys: Seq<Seq<char>>, set: Set<Seq<char>>) -> Set<Seq<char>> {
    Set::new(|k: Seq<char>| set.contains(k) && !keys.contains(k))
}

/// `map` with each of `keys` bound to `consumer`.
pub open spec fn bound(
    map: Map<Seq<char>, ConsumerModel>,
    keys: Seq<Seq<char>>,
    consumer: ConsumerModel,
) -> Map<Seq<char>, ConsumerModel> {
    Map::new(
        |k: Seq<char>| map.dom().contains(k) || keys.contains(k),
        |k: Seq<char>|
            if keys.contains(k) {
                consumer
            } else {
                map[k]
            },
    )
}

impl KeywordConsumer {
    /// Takes the keys of the keyword off `set`. A key that is not in `set`
    /// makes no difference.
    pub fn consume(&self, set: &mut KeySet)
        ensures
            key_set_items(*final(set)) == consumed(self@.keys, key_set_items(*old(set))),
    {
        let ghost keys = views(self.keys@);
        let ghost before = key_set_items(*set);
        let mut i: usize = 0;
        while i < self.keys.len()
            invariant
                i <= self.keys.len(),
                keys == views(self.keys@),
                key_set_items(*set) == consumed(keys.take(i as int), before),
            decreases self.keys.len() - i,
        {
            let ghost now = key_set_items(*set);
            if set.contains(self.keys[i].as_str()) {
                set.remove(self.keys[i].as_str());
            }
            proof {
                let done = keys.take(i + 1);
                assert(done.last() == self.keys[i as int]@);
                assert forall|k: Seq<char>| done.contains(k) <==> (keys.take(i as int).contains(k)
                    || k == self.keys[i as int]@) by {
                    if done.contains(k) {
                        let j = choose|j: int| 0 <= j < done.len() && done[j] == k;
                        if j < i {
                            assert(keys.take(i as int)[j] == k);
                        }
                    }
                    if keys.take(i as int).contains(k) {
                        let j = choose|j: int|
                            0 <= j < keys.take(i as int).len() && keys.take(i as int)[j] == k;
                        assert(done[j] == k);
                    }
                    if k == self.keys[i as int]@ {
                        assert(done[i as int] == k);
                    }
                }
                assert(key_set_items(*set) =~= consumed(done, before));
            }
            i = i + 1;
        }
        assert(keys.take(self.keys.len() as int) == keys);
    }
}

/// The texts of a list of keys.
pub open spec fn key_views(keys: Seq<&'static str>) -> Seq<Seq<char>> {
    keys.map_values(|k: &'static str| k@)
}

/// Binds each of the keys of `keyword_pair` to its keyword in `map`. All of
/// them are bound to one and the same record, which lists them all.
pub fn decouple_keyword(keyword_pair: KeywordPair, map: &mut KeywordMap)
    ensures
        registry_model(*final(map)) == bound(
            registry_model(*old(map)),
            key_views(keyword_pair.0@),
            ConsumerModel { keys: key_views(keyword_pair.0@), keyword: keyword_pair.1@ },
        ),
{
    let (keys, keyword) = keyword_pair;
    let ghost names = key_views(keys@);
    let ghost record = ConsumerModel { keys: names, keyword: keyword@ };
    let ghost before = registry_model(*map);
    let mut owned: Vec<String> = Vec::new();
    let mut i: usize = 0;
    while i < keys.len()
        invariant
            i <= keys.len(),
            names == key_views(keys@),
            views(owned@) == names.take(i as int),
        decreases keys.len() - i,
    {
        let ghost prior = owned@;
        owned.push(keys[i].to_string());
        proof {
            assert(views(owned@) == views(prior).push(keys[i as int]@));
            assert(names.take(i + 1) == names.take(i as int).push(names[i as int]));
        }
        i = i + 1;
    }
    assert(names.take(keys.len() as int) == names);
    let consumer = KeywordConsumer { keys: owned, keyword };
    assert(consumer@ == record);
    let slot = map.push(consumer);
    let ghost pushed = *map;
    assert(registry_model(*map) =~= before);
    let mut i: usize = 0;
    while i < keys.len()
        invariant
            i <= keys.len(),
            names == key_views(keys@),
            slot < map.order().len(),
            map.order()[slot as int]@ == record,
            registry_model(*map) == bound(before, names.take(i as int), record),
        decreases keys.len() - i,
    {
        let ghost now = registry_model(*map);
        let ghost entries_now = map.entries();
        let ghost order_now = map.order();
        map.bind(keys[i].to_string(), slot);
        proof {
            let done = names.take(i + 1);
            assert(done.last() == keys[i as int]@);
            assert forall|k: Seq<char>| done.contains(k) <==> (names.take(i as int).contains(k)
                || k == keys[i as int]@) by {
                if done.contains(k) {
                    let j = choose|j: int| 0 <= j < done.len() && done[j] == k;
                    if j < i {
                        assert(names.take(i as int)[j] == k);
                    }
                }
                if names.take(i as int).contains(k) {
                    let j = choose|j: int|
                        0 <= j < names.take(i as int).len() && names.take(i as int)[j] == k;
                    assert(done[j] == k);
                }
                if k == keys[i as int]@ {
                    assert(done[i as int] == k);
                }
            }
            let key = keys[i as int]@;
            let target = bound(before, done, record);
            assert(map.entries() == entries_now.insert(key, order_now[slot as int]));
            assert forall|k: Seq<char>|
                registry_model(*map).dom().contains(k) == target.dom().contains(k) by {
                assert(now.dom().contains(k) == entries_now.dom().contains(k));
            }
            assert forall|k: Seq<char>| #[trigger]
                registry_model(*map).dom().contains(k) implies registry_model(*map)[k]
                == target[k] by {
                if k != key {
                    assert(now.dom().contains(k));
                    assert(now[k] == entries_now[k]@);
                }
            }
            assert(registry_model(*map) =~= target);
        }
        i = i + 1;
    }
    assert(names.take(keys.len() as int) == names);
}

/// `map` with the one key `key` bound to `keyword`.
pub open spec fn single(
    map: Map<Seq<char>, ConsumerModel>,
    key: Seq<char>,
    keyword: KeywordModel,
) -> Map<Seq<char>, ConsumerModel> {
    bound(map, seq![key], ConsumerModel { keys: seq![key], keyword })
}

/// Binds the one key `key` to `keyword` in `map`.
fn register(map: &mut KeywordMap, key: &'static str, keyword: Keyword)
    ensures
        registry_model(*final(map)) == single(registry_model(*old(map)), key@, keyword@),
{
    let mut keys: Vec<&'static str> = Vec::new();
    keys.push(key);
    assert(key_views(keys@) == seq![key@]);
    decouple_keyword((keys, keyword), map);
}

/// The keywords that a scope knows from the start, each under its key.
pub open spec fn default_spec() -> Map<Seq<char>, ConsumerModel> {
    let m = Map::<Seq<char>, ConsumerModel>::empty();
    let m = single(m, "$ref"@, KeywordModel::Ref);
    let m = single(m, "allOf"@, KeywordModel::AllOf);
    let m = single(m, "anyOf"@, KeywordModel::AnyOf);
    let m = single(m, "oneOf"@, KeywordModel::OneOf);
    let m = single(m, "not"@, KeywordModel::Not);
    let m = single(m, "required"@, KeywordModel::Required);
    let m = single(m, "const"@, KeywordModel::Const);
    let m = single(m, "enum"@, KeywordModel::Enum);
    let m = single(m, "exclusiveMaximum"@, KeywordModel::ExclusiveMaximum);
    let m = single(m, "exclusiveMinimum"@, KeywordModel::ExclusiveMinimum);
    let m = single(m, "maxItems"@, KeywordModel::MaxItems);
    let m = single(m, "maxLength"@, KeywordModel::MaxLength);
    let m = single(m, "maxProperties"@, KeywordModel::MaxProperties);
    let m = single(m, "maximum"@, KeywordModel::Maximum);
    let m = single(m, "minItems"@, KeywordModel::MinItems);
    let m = single(m, "minLength"@, KeywordModel::MinLength);
    let m = single(m, "minProperties"@, KeywordModel::MinProperties);
    let m = single(m, "minimum"@, KeywordModel::Minimum);
    let m = single(m, "uniqueItems"@, KeywordModel::UniqueItems);
    let m = single(m, "propertyNames"@, KeywordModel::PropertyNames);
    let m = single(m, "type"@, KeywordModel::Type);
    let m = single(m, "pattern"@, KeywordModel::Pattern);
    let m = single(m, "contains"@, KeywordModel::Contains);
    let m = single(m, "dependencies"@, KeywordModel::Dependencies);
    let m = single(m, "multipleOf"@, KeywordModel::MultipleOf);
    let m = single(m, "items"@, KeywordModel::Items);
    let m = several(
        m,
        seq!["properties"@, "additionalProperties"@, "patternProperties"@],
        KeywordModel::Properties,
    );
    m
}

/// `map` with each of `keys` bound to `keyword`, which answers to them all.
pub open spec fn several(
    map: Map<Seq<char>, ConsumerModel>,
    keys: Seq<Seq<char>>,
    keyword: KeywordModel,
) -> Map<Seq<char>, ConsumerModel> {
    bound(map, keys, ConsumerModel { keys, keyword })
}

/// The registry that a scope starts from.
pub fn default() -> (map: KeywordMap)
    ensures
        registry_model(map) == default_spec(),
{
    let mut map: KeywordMap = Table::new();
    assert(registry_model(map) =~= Map::<Seq<char>, ConsumerModel>::empty());
    register(&mut map, "$ref", Keyword::Ref(ref_::Ref));
    register(&mut map, "allOf", Keyword::AllOf(of::AllOf));
    register(&mut map, "anyOf", Keyword::AnyOf(of::AnyOf));
    register(&mut map, "oneOf", Keyword::OneOf(of::OneOf));
    register(&mut map, "not", Keyword::Not(not::Not));
    register(&mut map, "required", Keyword::Required(required::Required));
    register(&mut map, "const", Keyword::Const(const_::Const));
    register(&mut map, "enum", Keyword::Enum(enum_::Enum));
    register(&mut map, "exclusiveMaximum", Keyword::ExclusiveMaximum(maxmin::ExclusiveMaximum));
    register(&mut map, "exclusiveMinimum", Keyword::ExclusiveMinimum(maxmin::ExclusiveMinimum));
    register(&mut map, "maxItems", Keyword::MaxItems(maxmin_items::MaxItems));
    register(&mut map, "maxLength", Keyword::MaxLength(maxmin_length::MaxLength));
    register(&mut map, "maxProperties", Keyword::MaxProperties(maxmin_properties::MaxProperties));
    register(&mut map, "maximum", Keyword::Maximum(maxmin::Maximum));
    register(&mut map, "minItems", Keyword::MinItems(maxmin_items::MinItems));
    register(&mut map, "minLength", Keyword::MinLength(maxmin_length::MinLength));
    register(&mut map, "minProperties", Keyword::MinProperties(maxmin_properties::MinProperties));
    register(&mut map, "minimum", Keyword::Minimum(maxmin::Minimum));
    register(&mut map, "uniqueItems", Keyword::UniqueItems(unique_items::UniqueItems));
    register(&mut map, "propertyNames", Keyword::PropertyNames(property_names::PropertyNames));
    register(&mut map, "type", Keyword::Type(type_::Type));
    register(&mut map, "pattern", Keyword::Pattern(pattern::Pattern));
    register(&mut map, "contains", Keyword::Contains(contains::Contains));
    register(&mut map, "dependencies", Keyword::Dependencies(dependencies::Dependencies));
    register(&mut map, "multipleOf", Keyword::MultipleOf(multiple_of::MultipleOf));
    register(&mut map, "items", Keyword::Items(items::Items));
    let mut keys: Vec<&'static str> = Vec::new();
    keys.push("properties");
    keys.push("additionalProperties");
    keys.push("patternProperties");
    assert(key_views(keys@) == seq!["properties"@, "additionalProperties"@, "patternProperties"@]);
    decouple_keyword((keys, Keyword::Properties(properties::Properties)), &mut map);
    map
}

} // verus!
