//! The checks that a compiled schema is made of, and what they report.

use crate::error::{error_model, ErrorKind, ErrorModel, SimdjsonSchemaErrors, ValidationError};
use crate::json::{json_equal, Json, JsonValue, MemberValue, Number};
use crate::primitive_types::PrimitiveType;
use crate::schema::SchemaModel;
use crate::scope::{Scope, ScopeModel};
use crate::text::{decimal_spec, join_spec};
use crate::uri::{uri_views, Uri};
use vstd::prelude::*;

pub mod bound;
pub mod const_;
pub mod contains;
pub mod dependencies;
pub mod enum_;
pub mod formats;
pub mod items;
pub mod maxmin;
pub mod maxmin_items;
pub mod maxmin_length;
pub mod maxmin_properties;
pub mod multiple_of;
pub mod not;
pub mod of;
pub mod pattern;
pub mod properties;
pub mod property_names;
pub mod ref_;
pub mod required;
pub mod type_;
pub mod unique_items;

pub use self::const_::Const;
pub use self::contains::Contains;
pub use self::dependencies::Dependencies;
pub use self::enum_::Enum;
pub use self::items::Items;
pub use self::maxmin::{ExclusiveMaximum, ExclusiveMinimum, Maximum, Minimum};
pub use self::maxmin_items::{MaxItems, MinItems};
pub use self::maxmin_length::{MaxLength, MinLength};
pub use self::maxmin_properties::{MaxProperties, MinProperties};
pub use self::multiple_of::MultipleOf;
pub use self::not::Not;
pub use self::of::{AllOf, AnyOf, OneOf};
pub use self::pattern::Pattern;
pub use self::properties::Properties;
pub use self::property_names::PropertyNames;
pub use self::ref_::Ref;
pub use self::required::Required;
pub use self::type_::Type;
pub use self::unique_items::UniqueItems;

verus! {

broadcast use {vstd::seq::group_seq_axioms, vstd::std_specs::vec::group_vec_axioms};

/// What one validation found: the violations, and the identifiers of the
/// schemas that it needed and the scope did not hold.
///
/// A validation follows a bounded number of references one inside the
/// other. Where it gave up on one because that bound was reached, it says
/// so in `exhausted`: what it reports then is not all there is to report.
#[derive(Debug)]
pub struct ValidationState {
    pub errors: SimdjsonSchemaErrors,
    pub missing: Vec<Uri>,
    pub exhausted: bool,
}

/// The model of a [`ValidationState`].
pub struct StateModel {
    pub errors: Seq<ErrorModel>,
    pub missing: Seq<Seq<char>>,
    /// Whether a reference was not followed because the bound was reached.
    pub exhausted: bool,
}

/// The model of a state: the models of its errors and the texts of its
/// identifiers, in order.
pub open spec fn state_model(s: ValidationState) -> StateModel
    decreases s, 0nat,
{
    StateModel {
        errors: Seq::new(
            s.errors.len() as nat,
            |i: int|
                if 0 <= i < s.errors.len() {
                    error_model(s.errors[i])
                } else {
                    arbitrary()
                },
        ),
        missing: uri_views(s.missing@),
        exhausted: s.exhausted,
    }
}

impl View for ValidationState {
    type V = StateModel;

    open spec fn view(&self) -> StateModel {
        state_model(*self)
    }
}

impl StateModel {
    /// The state that reports nothing.
    pub open spec fn empty() -> StateModel {
        StateModel { errors: Seq::empty(), missing: Seq::empty(), exhausted: false }
    }

    /// The state that reports the one error `e`.
    pub open spec fn of_error(e: ErrorModel) -> StateModel {
        StateModel { errors: seq![e], missing: Seq::empty(), exhausted: false }
    }

    /// The state that reports the one identifier `uri` as missing.
    pub open spec fn of_missing(uri: Seq<char>) -> StateModel {
        StateModel { errors: Seq::empty(), missing: seq![uri], exhausted: false }
    }

    /// The state of a validation that followed no reference because the
    /// bound was reached: it reports nothing but that.
    pub open spec fn ran_out() -> StateModel {
        StateModel { errors: Seq::empty(), missing: Seq::empty(), exhausted: true }
    }

    /// No violation was found, and no reference was given up.
    pub open spec fn is_valid(self) -> bool {
        self.errors.len() == 0 && !self.exhausted
    }

    /// What `self` reports, then what `second` reports. A reference was
    /// given up where one was in either.
    pub open spec fn append(self, second: StateModel) -> StateModel {
        StateModel {
            errors: self.errors + second.errors,
            missing: self.missing + second.missing,
            exhausted: self.exhausted || second.exhausted,
        }
    }
}

/// Merging is associative: it does not matter which two of three states are
/// merged first.
pub proof fn lemma_append_associative(a: StateModel, b: StateModel, c: StateModel)
    ensures
        a.append(b).append(c) == a.append(b.append(c)),
{
    assert(a.append(b).append(c).errors =~= a.append(b.append(c)).errors);
    assert(a.append(b).append(c).missing =~= a.append(b.append(c)).missing);
}

/// Merging with the state that reports nothing changes nothing.
pub proof fn lemma_append_empty(s: StateModel)
    ensures
        StateModel::empty().append(s) == s,
        s.append(StateModel::empty()) == s,
{
    assert(StateModel::empty().append(s).errors =~= s.errors);
    assert(StateModel::empty().append(s).missing =~= s.missing);
    assert(s.append(StateModel::empty()).errors =~= s.errors);
    assert(s.append(StateModel::empty()).missing =~= s.missing);
}

/// `element_states` gives one state for each element.
pub proof fn lemma_element_states_len(
    scope: ScopeModel,
    node: SchemaModel,
    elements: Seq<JsonValue>,
    n: nat,
    path: Seq<char>,
    depth: nat,
)
    requires
        n <= elements.len(),
    ensures
        element_states(scope, node, elements, n, path, depth).len() == n,
    decreases n,
{
    if n > 0 {
        lemma_element_states_len(scope, node, elements, (n - 1) as nat, path, depth);
    }
}

impl ValidationState {
    /// A state that reports nothing.
    pub fn new() -> (r: ValidationState)
        ensures
            r@ == StateModel::empty(),
    {
        let r = ValidationState { errors: Vec::new(), missing: Vec::new(), exhausted: false };
        assert(r@.errors =~= Seq::empty());
        assert(r@.missing =~= Seq::empty());
        r
    }

    /// The state of a validation that followed no reference because the
    /// bound was reached.
    pub fn ran_out() -> (r: ValidationState)
        ensures
            r@ == StateModel::ran_out(),
    {
        let r = ValidationState { errors: Vec::new(), missing: Vec::new(), exhausted: true };
        assert(r@.errors =~= Seq::empty());
        assert(r@.missing =~= Seq::empty());
        r
    }

    /// A state that reports one error.
    pub fn of_error(e: ValidationError) -> (r: ValidationState)
        ensures
            r@ == StateModel::of_error(e@),
    {
        let mut errors: Vec<ValidationError> = Vec::new();
        errors.push(e);
        let r = ValidationState { errors, missing: Vec::new(), exhausted: false };
        assert(r@.errors =~= seq![e@]);
        assert(r@.missing =~= Seq::empty());
        r
    }

    /// A state that reports one identifier as missing.
    pub fn of_missing(uri: Uri) -> (r: ValidationState)
        ensures
            r@ == StateModel::of_missing(uri@),
    {
        let mut missing: Vec<Uri> = Vec::new();
        missing.push(uri);
        let r = ValidationState { errors: Vec::new(), missing, exhausted: false };
        assert(r@.errors =~= Seq::empty());
        assert(r@.missing =~= seq![uri@]);
        r
    }

    /// Whether no violation was found and no reference was given up.
    pub fn is_valid(&self) -> (r: bool)
        ensures
            r == self@.is_valid(),
    {
        self.errors.len() == 0 && !self.exhausted
    }

    /// Adds what `second` reports behind what `self` reports.
    pub fn append(&mut self, second: ValidationState)
        ensures
            final(self)@ == old(self)@.append(second@),
    {
        let ghost added = second@;
        let mut second = second;
        self.errors.append(&mut second.errors);
        self.missing.append(&mut second.missing);
        self.exhausted = self.exhausted || second.exhausted;
        assert(final(self)@.errors =~= old(self)@.errors + added.errors);
        assert(final(self)@.missing =~= old(self)@.missing + added.missing);
    }
}

/// A check of the caller's own making.
///
/// `outcome` says what the check finds, and `validate` is held to it. Of a
/// type that implements the trait the library proves nothing: what it states
/// of a schema with such a check holds as far as `validate` does what
/// `outcome` says.
pub trait CustomValidator {
    /// What the check finds of `value`, which stands at `path`.
    spec fn outcome(&self, value: JsonValue, path: Seq<char>) -> StateModel;

    /// Runs the check on `val`, which stands at `path`.
    fn validate(&self, val: &Json, path: &str) -> (r: ValidationState)
        ensures
            r@ == self.outcome(val@, path@),
    ;
}

/// A compiled check.
pub enum Validator {
    Ref(ref_::Ref),
    Required(required::Required),
    PropertyNames(property_names::PropertyNames),
    AllOf(of::AllOf),
    AnyOf(of::AnyOf),
    OneOf(of::OneOf),
    Not(not::Not),
    Enum(enum_::Enum),
    Const(const_::Const),
    UniqueItems(unique_items::UniqueItems),
    MaxLength(maxmin_length::MaxLength),
    MinLength(maxmin_length::MinLength),
    MaxItems(maxmin_items::MaxItems),
    MinItems(maxmin_items::MinItems),
    MaxProperties(maxmin_properties::MaxProperties),
    MinProperties(maxmin_properties::MinProperties),
    Maximum(maxmin::Maximum),
    ExclusiveMaximum(maxmin::ExclusiveMaximum),
    Minimum(maxmin::Minimum),
    ExclusiveMinimum(maxmin::ExclusiveMinimum),
    DateTime(formats::DateTime),
    Type(type_::Type),
    Pattern(pattern::Pattern),
    Items(items::Items),
    Properties(properties::Properties),
    Contains(contains::Contains),
    Dependencies(dependencies::Dependencies),
    MultipleOf(multiple_of::MultipleOf),
    /// A check of the caller's own making.
    Custom(Box<dyn CustomValidator>),
}

/// The checks of a node.
pub type Validators = Vec<Validator>;

/// The kinds that the keyword `type` allows: one, or any of several.
pub enum TypeKindModel {
    Single(PrimitiveType),
    AnyOf(Seq<PrimitiveType>),
}

/// The schema for the elements of an array: one for all of them, or one for
/// each place.
pub enum ItemsKindModel {
    Schema(Seq<char>),
    Array(Seq<Seq<char>>),
}

/// What holds of the elements or members that nothing else speaks of: they
/// are allowed or not, or must match a schema.
pub enum AdditionalKindModel {
    Boolean(bool),
    Schema(Seq<char>),
}

/// A regular expression for names, and the schema for the members whose
/// names match it.
pub struct PatternModel {
    pub pattern: Seq<char>,
    pub url: Seq<char>,
}

/// What the presence of a member asks for: that the object match a schema,
/// or that it have other members.
pub enum DepKindModel {
    Schema(Seq<char>),
    Property(Seq<Seq<char>>),
}

/// A member, and what its presence asks for.
pub struct DependencyModel {
    pub key: Seq<char>,
    pub kind: DepKindModel,
}

/// The model of a [`Validator`].
#[allow(inconsistent_fields)]
pub enum ValidatorModel {
    /// The value must match the schema at `url`.
    Ref { url: Seq<char> },
    /// An object must have the members named in `items`.
    Required { items: Seq<Seq<char>> },
    /// The members of an object must match the schema at `url`.
    PropertyNames { url: Seq<char> },
    /// The value must match each of the schemas at `schemes`.
    AllOf { schemes: Seq<Seq<char>> },
    /// The value must match one at least of the schemas at `schemes`.
    AnyOf { schemes: Seq<Seq<char>> },
    /// The value must match one and only one of the schemas at `schemes`.
    OneOf { schemes: Seq<Seq<char>> },
    /// The value must not match the schema at `url`.
    Not { url: Seq<char> },
    /// The value must be one of `items`.
    Enum { values: Seq<JsonValue> },
    /// The value must be `item`.
    Const { item: JsonValue },
    /// An array must not hold a value twice.
    UniqueItems,
    /// A string must have `length` bytes at most.
    MaxLength { length: u64 },
    /// A string must have `length` bytes at least.
    MinLength { length: u64 },
    /// An array must have `length` elements at most.
    MaxItems { length: u64 },
    /// An array must have `length` elements at least.
    MinItems { length: u64 },
    /// An object must have `length` members at most.
    MaxProperties { length: u64 },
    /// An object must have `length` members at least.
    MinProperties { length: u64 },
    /// A number must not be above `number`.
    Maximum { number: Number },
    /// A number must be below `number`.
    ExclusiveMaximum { number: Number },
    /// A number must not be below `number`.
    Minimum { number: Number },
    /// A number must be above `number`.
    ExclusiveMinimum { number: Number },
    /// A string must be a date and time as RFC 3339 writes them.
    DateTime,
    /// The value must be of one of the kinds of `item`.
    Type { item: TypeKindModel },
    /// A string must match the regular expression `pattern`.
    Pattern { pattern: Seq<char> },
    /// The elements of an array must match the schemas of `items`, and those
    /// that `items` has no schema for must be as `additional` says.
    Items { items: Option<ItemsKindModel>, additional: Option<AdditionalKindModel> },
    /// Each member of an object must match the schema that `properties` has
    /// for its name and the schemas of the `patterns` that its name matches;
    /// a member that none of them speaks of must be as `additional` says.
    Properties {
        properties: Map<Seq<char>, Seq<char>>,
        additional: AdditionalKindModel,
        patterns: Seq<PatternModel>,
    },
    /// An element of an array must match the schema at `url`.
    Contains { url: Seq<char> },
    /// Where an object has a member named in `items`, it must be as `items`
    /// says for that member.
    Dependencies { items: Seq<DependencyModel> },
    /// A whole number must be a multiple of the whole number `number`.
    MultipleOf { number: Number },
    /// A check of the caller's own making: what it finds of a value at a
    /// path.
    Custom { finds: spec_fn(JsonValue, Seq<char>) -> StateModel },
}

impl View for Validator {
    type V = ValidatorModel;

    open spec fn view(&self) -> ValidatorModel {
        match self {
            Validator::Ref(v) => v@,
            Validator::Required(v) => v@,
            Validator::PropertyNames(v) => v@,
            Validator::AllOf(v) => v@,
            Validator::AnyOf(v) => v@,
            Validator::OneOf(v) => v@,
            Validator::Not(v) => v@,
            Validator::Enum(v) => v@,
            Validator::Const(v) => v@,
            Validator::UniqueItems(v) => v@,
            Validator::MaxLength(v) => v@,
            Validator::MinLength(v) => v@,
            Validator::MaxItems(v) => v@,
            Validator::MinItems(v) => v@,
            Validator::MaxProperties(v) => v@,
            Validator::MinProperties(v) => v@,
            Validator::Maximum(v) => v@,
            Validator::ExclusiveMaximum(v) => v@,
            Validator::Minimum(v) => v@,
            Validator::ExclusiveMinimum(v) => v@,
            Validator::DateTime(v) => v@,
            Validator::Type(v) => v@,
            Validator::Pattern(v) => v@,
            Validator::Items(v) => v@,
            Validator::Properties(v) => v@,
            Validator::Contains(v) => v@,
            Validator::Dependencies(v) => v@,
            Validator::MultipleOf(v) => v@,
            Validator::Custom(v) => ValidatorModel::Custom {
                finds: |value: JsonValue, path: Seq<char>| v.outcome(value, path),
            },
        }
    }
}

/// The models of a list of checks, one for one.
pub open spec fn validator_models(validators: Seq<Validator>) -> Seq<ValidatorModel> {
    validators.map_values(|v: Validator| v@)
}

/// The models of a list of values, one for one.
pub open spec fn json_models(values: Seq<Json>) -> Seq<JsonValue> {
    values.map_values(|v: Json| v@)
}

/// The model of a state that may be absent.
pub open spec fn option_state_view(s: Option<ValidationState>) -> Option<StateModel> {
    match s {
        Some(s) => Some(s@),
        None => None,
    }
}

/// An error that holds a path and nothing else.
pub open spec fn plain_error(kind: ErrorKind, path: Seq<char>) -> ErrorModel {
    ErrorModel { kind, path, detail: None, states: Seq::empty() }
}

/// Nothing where `ok` holds, and one error of `kind` at `path` where it does
/// not.
pub open spec fn check(ok: bool, kind: ErrorKind, path: Seq<char>) -> StateModel {
    if ok {
        StateModel::empty()
    } else {
        StateModel::of_error(plain_error(kind, path))
    }
}

/// The path of the member `key` of the value at `path`.
pub open spec fn member_path(path: Seq<char>, key: Seq<char>) -> Seq<char> {
    path + seq!['/'] + key
}

/// The path under which the member `key` is checked as a property name.
pub open spec fn name_path(path: Seq<char>, key: Seq<char>) -> Seq<char> {
    path + seq!['/'] + seq!['['] + key + seq![']']
}

/// One `required` error for each of `items` that `value` has no member for,
/// in the order of `items`.
pub open spec fn required_outcome(items: Seq<Seq<char>>, value: JsonValue, path: Seq<char>) -> StateModel
    decreases items.len(),
{
    if items.len() == 0 {
        StateModel::empty()
    } else {
        required_outcome(items.drop_last(), value, path).append(
            check(value.has(items.last()), ErrorKind::Required, member_path(path, items.last())),
        )
    }
}

/// The path of the element at `index` of the array at `path`.
pub open spec fn element_path(path: Seq<char>, index: nat) -> Seq<char> {
    path + seq!['/'] + decimal_spec(index)
}

/// Whether `value` is of one of the kinds `set`.
pub open spec fn admits_any(set: Seq<PrimitiveType>, value: JsonValue) -> bool {
    exists|i: int| 0 <= i < set.len() && (#[trigger] set[i]).admits(value)
}

/// Whether `value` is of one of the kinds of `item`.
pub open spec fn type_admits(item: TypeKindModel, value: JsonValue) -> bool {
    match item {
        TypeKindModel::Single(t) => t.admits(value),
        TypeKindModel::AnyOf(set) => admits_any(set, value),
    }
}

/// The names of the kinds `set`.
pub open spec fn type_names(set: Seq<PrimitiveType>) -> Seq<Seq<char>> {
    set.map_values(|t: PrimitiveType| t.name_spec())
}

/// What a `wrong_type` error says of the kinds that were asked for.
pub open spec fn type_detail(item: TypeKindModel) -> Seq<char> {
    match item {
        TypeKindModel::Single(t) => "The value must be "@ + t.name_spec(),
        TypeKindModel::AnyOf(set) => "The value must be any of: "@ + join_spec(type_names(set), ", "@),
    }
}

/// Two elements of `a` at different places are the same value.
pub open spec fn has_duplicate(a: Seq<JsonValue>) -> bool {
    exists|i: int, j: int| 0 <= i < j < a.len() && json_equal(#[trigger] a[i], #[trigger] a[j])
}

/// `value` is the same value as one of `values`.
pub open spec fn is_listed(values: Seq<JsonValue>, value: JsonValue) -> bool {
    exists|i: int| 0 <= i < values.len() && json_equal(value, #[trigger] values[i])
}

/// What a check that looks at the value alone reports. A check that asks for
/// a string, a number, an array or an object reports nothing of a value of
/// another kind.
pub open spec fn leaf_outcome(v: ValidatorModel, value: JsonValue, path: Seq<char>) -> StateModel {
    match v {
        ValidatorModel::Required { items } => match value {
            JsonValue::Object(_) => required_outcome(items, value, path),
            _ => StateModel::empty(),
        },
        ValidatorModel::Enum { values } => check(is_listed(values, value), ErrorKind::Enum, path),
        ValidatorModel::Const { item } => check(json_equal(value, item), ErrorKind::Const, path),
        ValidatorModel::UniqueItems => match value {
            JsonValue::Array(a) => check(!has_duplicate(a), ErrorKind::UniqueItems, path),
            _ => StateModel::empty(),
        },
        ValidatorModel::MaxLength { length } => match value {
            JsonValue::String(s) => check(
                vstd::utf8::encode_utf8(s).len() <= length,
                ErrorKind::MaxLength,
                path,
            ),
            _ => StateModel::empty(),
        },
        ValidatorModel::MinLength { length } => match value {
            JsonValue::String(s) => check(
                vstd::utf8::encode_utf8(s).len() >= length,
                ErrorKind::MinLength,
                path,
            ),
            _ => StateModel::empty(),
        },
        ValidatorModel::MaxItems { length } => match value {
            JsonValue::Array(a) => check(a.len() <= length, ErrorKind::MaxItems, path),
            _ => StateModel::empty(),
        },
        ValidatorModel::MinItems { length } => match value {
            JsonValue::Array(a) => check(a.len() >= length, ErrorKind::MinItems, path),
            _ => StateModel::empty(),
        },
        ValidatorModel::MaxProperties { length } => match value {
            JsonValue::Object(m) => check(m.len() <= length, ErrorKind::MaxProperties, path),
            _ => StateModel::empty(),
        },
        ValidatorModel::MinProperties { length } => match value {
            JsonValue::Object(m) => check(m.len() >= length, ErrorKind::MinProperties, path),
            _ => StateModel::empty(),
        },
        ValidatorModel::Maximum { number } => match value {
            JsonValue::Number(n) => check(n.order <= number.order, ErrorKind::Maximum, path),
            _ => StateModel::empty(),
        },
        ValidatorModel::ExclusiveMaximum { number } => match value {
            JsonValue::Number(n) => check(n.order < number.order, ErrorKind::Maximum, path),
            _ => StateModel::empty(),
        },
        ValidatorModel::Minimum { number } => match value {
            JsonValue::Number(n) => check(n.order >= number.order, ErrorKind::Minimum, path),
            _ => StateModel::empty(),
        },
        ValidatorModel::ExclusiveMinimum { number } => match value {
            JsonValue::Number(n) => check(n.order > number.order, ErrorKind::Minimum, path),
            _ => StateModel::empty(),
        },
        ValidatorModel::Type { item } => if type_admits(item, value) {
            StateModel::empty()
        } else {
            StateModel::of_error(
                ErrorModel {
                    kind: ErrorKind::WrongType,
                    path,
                    detail: Some(type_detail(item)),
                    states: Seq::empty(),
                },
            )
        },
        ValidatorModel::MultipleOf { number } => match value {
            JsonValue::Number(n) => check(
                !multiple_of::is_no_multiple(n, number),
                ErrorKind::MultipleOf,
                path,
            ),
            _ => StateModel::empty(),
        },
        ValidatorModel::Custom { finds } => finds(value, path),
        ValidatorModel::Pattern { pattern } => match value {
            JsonValue::String(s) => check(
                pattern::regex_matched(pattern, s) == Some(true),
                ErrorKind::Pattern,
                path,
            ),
            _ => StateModel::empty(),
        },
        ValidatorModel::DateTime => match value {
            JsonValue::String(s) => if formats::rfc3339_accepted(s) {
                StateModel::empty()
            } else {
                StateModel::of_error(
                    ErrorModel {
                        kind: ErrorKind::Format,
                        path,
                        detail: Some("Malformed date time"@),
                        states: Seq::empty(),
                    },
                )
            },
            _ => StateModel::empty(),
        },
        _ => StateModel::empty(),
    }
}

/// What was found where a reference was followed, or the reference reported
/// as missing where it was not.
pub open spec fn found_or_missing(found: Option<StateModel>, url: Seq<char>) -> StateModel {
    match found {
        Some(s) => s,
        None => StateModel::of_missing(url),
    }
}

/// `allOf`: what every alternative found, one after the other.
pub open spec fn all_of_outcome(schemes: Seq<Seq<char>>, branches: Seq<Option<StateModel>>) -> StateModel
    decreases branches.len(),
{
    if branches.len() == 0 || schemes.len() != branches.len() {
        StateModel::empty()
    } else {
        all_of_outcome(schemes.drop_last(), branches.drop_last()).append(
            found_or_missing(branches.last(), schemes.last()),
        )
    }
}

/// The states of the alternatives that were followed, in order.
pub open spec fn branch_states(branches: Seq<Option<StateModel>>) -> Seq<StateModel>
    decreases branches.len(),
{
    if branches.len() == 0 {
        Seq::empty()
    } else {
        match branches.last() {
            Some(s) => branch_states(branches.drop_last()).push(s),
            None => branch_states(branches.drop_last()),
        }
    }
}

/// The identifiers that the alternatives report as missing: of one that was
/// followed, what it reports itself; of one that was not, its own identifier.
pub open spec fn branch_missing(schemes: Seq<Seq<char>>, branches: Seq<Option<StateModel>>) -> Seq<
    Seq<char>,
>
    decreases branches.len(),
{
    if branches.len() == 0 || schemes.len() != branches.len() {
        Seq::empty()
    } else {
        branch_missing(schemes.drop_last(), branches.drop_last()) + found_or_missing(
            branches.last(),
            schemes.last(),
        ).missing
    }
}

/// How many of the alternatives were followed and found no violation.
pub open spec fn valid_count(branches: Seq<Option<StateModel>>) -> nat
    decreases branches.len(),
{
    if branches.len() == 0 {
        0
    } else {
        valid_count(branches.drop_last()) + (match branches.last() {
            Some(s) => if s.is_valid() {
                1nat
            } else {
                0nat
            },
            None => 0nat,
        })
    }
}

/// Whether one of the alternatives that were followed gave up on a
/// reference.
pub open spec fn branch_exhausted(branches: Seq<Option<StateModel>>) -> bool
    decreases branches.len(),
{
    if branches.len() == 0 {
        false
    } else {
        branch_exhausted(branches.drop_last()) || (match branches.last() {
            Some(s) => s.exhausted,
            None => false,
        })
    }
}

/// An error about alternatives, with what each of them found.
pub open spec fn branches_error(kind: ErrorKind, path: Seq<char>, branches: Seq<Option<StateModel>>) -> ErrorModel {
    ErrorModel { kind, path, detail: None, states: branch_states(branches) }
}

/// `anyOf`: no error where an alternative found no violation; else one
/// `any_of` error that holds what each alternative found.
pub open spec fn any_of_outcome(
    schemes: Seq<Seq<char>>,
    branches: Seq<Option<StateModel>>,
    path: Seq<char>,
) -> StateModel {
    StateModel {
        errors: if valid_count(branches) >= 1 {
            Seq::empty()
        } else {
            seq![branches_error(ErrorKind::AnyOf, path, branches)]
        },
        missing: branch_missing(schemes, branches),
        exhausted: branch_exhausted(branches),
    }
}

/// `oneOf`: no error where one alternative and no other found no violation;
/// else one `one_of` error that holds what each alternative found.
pub open spec fn one_of_outcome(
    schemes: Seq<Seq<char>>,
    branches: Seq<Option<StateModel>>,
    path: Seq<char>,
) -> StateModel {
    StateModel {
        errors: if valid_count(branches) == 1 {
            Seq::empty()
        } else {
            seq![branches_error(ErrorKind::OneOf, path, branches)]
        },
        missing: branch_missing(schemes, branches),
        exhausted: branch_exhausted(branches),
    }
}

/// `not`: one `not` error where the schema found no violation, none where it
/// found one. What the schema reports as missing is handed on.
pub open spec fn not_outcome(url: Seq<char>, found: Option<StateModel>, path: Seq<char>) -> StateModel {
    match found {
        Some(s) => StateModel {
            errors: if s.is_valid() {
                seq![plain_error(ErrorKind::Not, path)]
            } else {
                Seq::empty()
            },
            missing: s.missing,
            exhausted: s.exhausted,
        },
        None => StateModel::of_missing(url),
    }
}

/// What the schema at `url` finds of `value`, with `depth` references still to
/// be followed one inside the other: nothing where the scope has no such
/// schema, and where `depth` is used up the state that says so.
pub open spec fn follow(
    scope: ScopeModel,
    url: Seq<char>,
    value: JsonValue,
    path: Seq<char>,
    depth: nat,
) -> Option<StateModel>
    decreases depth, 0nat, 0nat,
{
    match scope.resolve(url) {
        Some(node) => if depth == 0 {
            Some(StateModel::ran_out())
        } else {
            Some(validate_node(scope, node, value, path, (depth - 1) as nat))
        },
        None => None,
    }
}

/// What each of the schemas at `schemes` finds of `value`.
pub open spec fn branches(
    scope: ScopeModel,
    schemes: Seq<Seq<char>>,
    value: JsonValue,
    path: Seq<char>,
    depth: nat,
) -> Seq<Option<StateModel>>
    decreases depth, 0nat, schemes.len() + 1,
{
    if schemes.len() == 0 {
        Seq::empty()
    } else {
        branches(scope, schemes.drop_last(), value, path, depth).push(
            follow(scope, schemes.last(), value, path, depth),
        )
    }
}

/// What `node` finds of the values of `members`, each under the path of its
/// name.
pub open spec fn validate_members(
    scope: ScopeModel,
    node: SchemaModel,
    members: Seq<MemberValue>,
    path: Seq<char>,
    depth: nat,
) -> StateModel
    decreases depth, 4nat, members.len(),
{
    if members.len() == 0 {
        StateModel::empty()
    } else {
        validate_members(scope, node, members.drop_last(), path, depth).append(
            validate_node(scope, node, members.last().value, name_path(path, members.last().key), depth),
        )
    }
}

/// What `node` finds of the elements of `elements` from the place `from` up
/// to the place `upto`, each under the path of its place.
pub open spec fn validate_elements(
    scope: ScopeModel,
    node: SchemaModel,
    elements: Seq<JsonValue>,
    from: nat,
    upto: nat,
    path: Seq<char>,
    depth: nat,
) -> StateModel
    decreases depth, 4nat, upto,
{
    if upto <= from || upto > elements.len() {
        StateModel::empty()
    } else {
        validate_elements(scope, node, elements, from, (upto - 1) as nat, path, depth).append(
            validate_node(
                scope,
                node,
                elements[upto - 1],
                element_path(path, (upto - 1) as nat),
                depth,
            ),
        )
    }
}

/// What `node` finds of each of the first `n` elements of `elements`.
pub open spec fn element_states(
    scope: ScopeModel,
    node: SchemaModel,
    elements: Seq<JsonValue>,
    n: nat,
    path: Seq<char>,
    depth: nat,
) -> Seq<StateModel>
    decreases depth, 4nat, n,
{
    if n == 0 || n > elements.len() {
        Seq::empty()
    } else {
        element_states(scope, node, elements, (n - 1) as nat, path, depth).push(
            validate_node(scope, node, elements[n - 1], element_path(path, (n - 1) as nat), depth),
        )
    }
}

/// What the schema at `url` finds of the elements of `elements` from the
/// place `from` on. Where the scope has no such schema, `url` is reported as
/// missing, once; where `depth` is used up, the state says so.
pub open spec fn followed_elements(
    scope: ScopeModel,
    url: Seq<char>,
    elements: Seq<JsonValue>,
    from: nat,
    path: Seq<char>,
    depth: nat,
) -> StateModel
    decreases depth, 0nat, 0nat,
{
    match scope.resolve(url) {
        Some(node) => if depth == 0 {
            StateModel::ran_out()
        } else {
            validate_elements(scope, node, elements, from, elements.len(), path, (depth - 1) as nat)
        },
        None => StateModel::of_missing(url),
    }
}

/// What the first `n` of the schemas at `urls` find, each of the element at
/// its own place.
pub open spec fn paired(
    scope: ScopeModel,
    urls: Seq<Seq<char>>,
    elements: Seq<JsonValue>,
    n: nat,
    path: Seq<char>,
    depth: nat,
) -> StateModel
    decreases depth, 0nat, n + 1,
{
    if n == 0 || n > urls.len() || n > elements.len() {
        StateModel::empty()
    } else {
        paired(scope, urls, elements, (n - 1) as nat, path, depth).append(
            found_or_missing(
                follow(
                    scope,
                    urls[n - 1],
                    elements[n - 1],
                    element_path(path, (n - 1) as nat),
                    depth,
                ),
                urls[n - 1],
            ),
        )
    }
}

/// The smaller of two counts.
pub open spec fn least(a: nat, b: nat) -> nat {
    if a <= b {
        a
    } else {
        b
    }
}

/// The error for an element that no schema speaks of and that is not
/// allowed.
pub open spec fn additional_items_error(path: Seq<char>) -> ErrorModel {
    ErrorModel {
        kind: ErrorKind::Items,
        path,
        detail: Some("Additional items are not allowed"@),
        states: Seq::empty(),
    }
}

/// The error for a member that no schema speaks of and that is not allowed.
pub open spec fn additional_properties_error(path: Seq<char>) -> ErrorModel {
    ErrorModel {
        kind: ErrorKind::Properties,
        path,
        detail: Some("Additional properties are not allowed"@),
        states: Seq::empty(),
    }
}

/// Whether the name `key` matches one of `patterns`.
pub open spec fn any_pattern(patterns: Seq<PatternModel>, key: Seq<char>) -> bool {
    exists|i: int|
        0 <= i < patterns.len() && pattern::regex_matched((#[trigger] patterns[i]).pattern, key)
            == Some(true)
}

/// What the schemas of the first `n` of `patterns` find of the member `m`:
/// each one whose regular expression matches the name of `m`.
pub open spec fn validate_patterns(
    scope: ScopeModel,
    patterns: Seq<PatternModel>,
    n: nat,
    m: MemberValue,
    path: Seq<char>,
    depth: nat,
) -> StateModel
    decreases depth, 0nat, n + 1,
{
    if n == 0 || n > patterns.len() {
        StateModel::empty()
    } else {
        let before = validate_patterns(scope, patterns, (n - 1) as nat, m, path, depth);
        let p = patterns[n - 1];
        if pattern::regex_matched(p.pattern, m.key) == Some(true) {
            before.append(
                found_or_missing(
                    follow(scope, p.url, m.value, member_path(path, m.key), depth),
                    p.url,
                ),
            )
        } else {
            before
        }
    }
}

/// What `properties` finds of the member `m`: what the schema for its name
/// finds, then what the schemas of the patterns find that its name matches.
/// Of a member that none of them speaks of: nothing where it is allowed, an
/// error where it is not, and else what the schema for such members finds.
pub open spec fn validate_member(
    scope: ScopeModel,
    properties: Map<Seq<char>, Seq<char>>,
    additional: AdditionalKindModel,
    patterns: Seq<PatternModel>,
    m: MemberValue,
    path: Seq<char>,
    depth: nat,
) -> StateModel
    decreases depth, 0nat, patterns.len() + 2,
{
    let named = properties.dom().contains(m.key);
    let by_name = if named {
        found_or_missing(
            follow(scope, properties[m.key], m.value, member_path(path, m.key), depth),
            properties[m.key],
        )
    } else {
        StateModel::empty()
    };
    let by_pattern = validate_patterns(scope, patterns, patterns.len(), m, path, depth);
    if named || any_pattern(patterns, m.key) {
        by_name.append(by_pattern)
    } else {
        match additional {
            AdditionalKindModel::Boolean(true) => StateModel::empty(),
            AdditionalKindModel::Boolean(false) => StateModel::of_error(
                additional_properties_error(path),
            ),
            AdditionalKindModel::Schema(url) => found_or_missing(
                follow(scope, url, m.value, member_path(path, m.key), depth),
                url,
            ),
        }
    }
}

/// What `properties` finds of the first `n` of `members`.
pub open spec fn validate_properties(
    scope: ScopeModel,
    properties: Map<Seq<char>, Seq<char>>,
    additional: AdditionalKindModel,
    patterns: Seq<PatternModel>,
    members: Seq<MemberValue>,
    n: nat,
    path: Seq<char>,
    depth: nat,
) -> StateModel
    decreases depth, 0nat, patterns.len() + 3 + n,
{
    if n == 0 || n > members.len() {
        StateModel::empty()
    } else {
        validate_properties(
            scope,
            properties,
            additional,
            patterns,
            members,
            (n - 1) as nat,
            path,
            depth,
        ).append(
            validate_member(scope, properties, additional, patterns, members[n - 1], path, depth),
        )
    }
}

/// What `dependencies` finds of the object `value` for the first `n` of
/// `items`: for each one that `value` has the member of, what the schema
/// finds of `value`, or a `required` error for each member that is asked for
/// and absent.
pub open spec fn validate_dependencies(
    scope: ScopeModel,
    items: Seq<DependencyModel>,
    n: nat,
    value: JsonValue,
    path: Seq<char>,
    depth: nat,
) -> StateModel
    decreases depth, 0nat, n + 1,
{
    if n == 0 || n > items.len() {
        StateModel::empty()
    } else {
        let before = validate_dependencies(scope, items, (n - 1) as nat, value, path, depth);
        let item = items[n - 1];
        if value.has(item.key) {
            before.append(
                match item.kind {
                    DepKindModel::Schema(url) => found_or_missing(
                        follow(scope, url, value, path, depth),
                        url,
                    ),
                    DepKindModel::Property(keys) => required_outcome(keys, value, path),
                },
            )
        } else {
            before
        }
    }
}

/// Whether one of `states` reports no violation.
pub open spec fn any_valid(states: Seq<StateModel>) -> bool {
    exists|i: int| 0 <= i < states.len() && (#[trigger] states[i]).is_valid()
}

/// Whether one of `states` gave up on a reference.
pub open spec fn any_exhausted(states: Seq<StateModel>) -> bool
    decreases states.len(),
{
    if states.len() == 0 {
        false
    } else {
        any_exhausted(states.drop_last()) || states.last().exhausted
    }
}

/// What `states` report as missing, one after the other.
pub open spec fn all_missing(states: Seq<StateModel>) -> Seq<Seq<char>>
    decreases states.len(),
{
    if states.len() == 0 {
        Seq::empty()
    } else {
        all_missing(states.drop_last()) + states.last().missing
    }
}

/// `contains`: no error where the schema finds no violation in one element
/// at least, and else one `contains` error. What the schema reports as
/// missing is handed on.
pub open spec fn contains_outcome(states: Seq<StateModel>, path: Seq<char>) -> StateModel {
    StateModel {
        errors: if any_valid(states) {
            Seq::empty()
        } else {
            seq![plain_error(ErrorKind::Contains, path)]
        },
        missing: all_missing(states),
        exhausted: any_exhausted(states),
    }
}

/// What one check finds of `value`.
pub open spec fn validate_one(
    scope: ScopeModel,
    v: ValidatorModel,
    value: JsonValue,
    path: Seq<char>,
    depth: nat,
) -> StateModel
    decreases depth, 1nat, 0nat,
{
    match v {
        ValidatorModel::Ref { url } => found_or_missing(follow(scope, url, value, path, depth), url),
        ValidatorModel::AllOf { schemes } => all_of_outcome(
            schemes,
            branches(scope, schemes, value, path, depth),
        ),
        ValidatorModel::AnyOf { schemes } => any_of_outcome(
            schemes,
            branches(scope, schemes, value, path, depth),
            path,
        ),
        ValidatorModel::OneOf { schemes } => one_of_outcome(
            schemes,
            branches(scope, schemes, value, path, depth),
            path,
        ),
        ValidatorModel::Not { url } => not_outcome(url, follow(scope, url, value, path, depth), path),
        ValidatorModel::PropertyNames { url } => match value {
            JsonValue::Object(members) => match scope.resolve(url) {
                Some(node) => if depth == 0 {
                    StateModel::ran_out()
                } else {
                    validate_members(scope, node, members, path, (depth - 1) as nat)
                },
                None => StateModel::of_missing(url),
            },
            _ => StateModel::empty(),
        },
        ValidatorModel::Items { items, additional } => match value {
            JsonValue::Array(a) => match items {
                Some(ItemsKindModel::Schema(url)) => followed_elements(
                    scope,
                    url,
                    a,
                    0,
                    path,
                    depth,
                ),
                Some(ItemsKindModel::Array(urls)) => paired(
                    scope,
                    urls,
                    a,
                    least(urls.len(), a.len()),
                    path,
                    depth,
                ).append(
                    if a.len() > urls.len() {
                        match additional {
                            Some(AdditionalKindModel::Boolean(false)) => StateModel::of_error(
                                additional_items_error(path),
                            ),
                            Some(AdditionalKindModel::Schema(url)) => followed_elements(
                                scope,
                                url,
                                a,
                                urls.len(),
                                path,
                                depth,
                            ),
                            _ => StateModel::empty(),
                        }
                    } else {
                        StateModel::empty()
                    },
                ),
                None => StateModel::empty(),
            },
            _ => StateModel::empty(),
        },
        ValidatorModel::Properties { properties, additional, patterns } => match value {
            JsonValue::Object(members) => validate_properties(
                scope,
                properties,
                additional,
                patterns,
                members,
                members.len(),
                path,
                depth,
            ),
            _ => StateModel::empty(),
        },
        ValidatorModel::Contains { url } => match value {
            JsonValue::Array(a) => match scope.resolve(url) {
                Some(node) => if depth == 0 {
                    StateModel::ran_out()
                } else {
                    contains_outcome(
                        element_states(scope, node, a, a.len(), path, (depth - 1) as nat),
                        path,
                    )
                },
                None => StateModel::of_missing(url),
            },
            _ => StateModel::empty(),
        },
        ValidatorModel::Dependencies { items } => match value {
            JsonValue::Object(_) => validate_dependencies(
                scope,
                items,
                items.len(),
                value,
                path,
                depth,
            ),
            _ => StateModel::empty(),
        },
        _ => leaf_outcome(v, value, path),
    }
}

/// What the checks `validators` find of `value`, one after the other.
pub open spec fn validate_all(
    scope: ScopeModel,
    validators: Seq<ValidatorModel>,
    value: JsonValue,
    path: Seq<char>,
    depth: nat,
) -> StateModel
    decreases depth, 2nat, validators.len(),
{
    if validators.len() == 0 {
        StateModel::empty()
    } else {
        validate_all(scope, validators.drop_last(), value, path, depth).append(
            validate_one(scope, validators.last(), value, path, depth),
        )
    }
}

/// What the node `node` finds of `value`: what its checks find.
pub open spec fn validate_node(
    scope: ScopeModel,
    node: SchemaModel,
    value: JsonValue,
    path: Seq<char>,
    depth: nat,
) -> StateModel
    decreases depth, 3nat, 0nat,
{
    validate_all(scope, node.validators, value, path, depth)
}

/// Validates `val` against the schema that `url` stands for, with `depth`
/// references still to be followed one inside the other. Gives nothing where
/// the scope has no such schema, and where `depth` is used up the state that
/// says so.
pub fn follow_in(scope: &Scope, url: &Uri, val: &Json, path: &str, depth: usize) -> (r: Option<
    ValidationState,
>)
    ensures
        option_state_view(r) == follow(scope@, url@, val@, path@, depth as nat),
    decreases depth, 0nat, 0nat,
{
    match scope.resolve(url) {
        Some(schema) => if depth == 0 {
            Some(ValidationState::ran_out())
        } else {
            Some(schema.validate_within(val, path, depth - 1))
        },
        None => None,
    }
}

/// Validates `val` against the schema that `url` stands for, and reports
/// `url` as missing where the scope has no such schema.
pub fn followed(scope: &Scope, url: &Uri, val: &Json, path: &str, depth: usize) -> (r:
    ValidationState)
    ensures
        r@ == found_or_missing(follow(scope@, url@, val@, path@, depth as nat), url@),
    decreases depth, 0nat, 1nat,
{
    match follow_in(scope, url, val, path, depth) {
        Some(state) => state,
        None => ValidationState::of_missing(url.clone()),
    }
}

/// The path of the member `key` of the value at `path`.
pub fn member_path_of(path: &str, key: &str) -> (r: String)
    ensures
        r@ == member_path(path@, key@),
{
    let mut out = path.to_string();
    out.append("/");
    out.append(key);
    proof {
        reveal_strlit("/");
        assert(out@ == path@ + seq!['/'] + key@);
    }
    out
}

/// The path of the element at `index` of the array at `path`.
pub fn element_path_of(path: &str, index: usize) -> (r: String)
    ensures
        r@ == element_path(path@, index as nat),
{
    let mut out = path.to_string();
    out.append("/");
    out.append(crate::text::decimal(index).as_str());
    proof {
        reveal_strlit("/");
        assert(out@ == path@ + seq!['/'] + decimal_spec(index as nat));
    }
    out
}

impl Validator {
    /// Runs the check on `item`, which stands at `path`.
    pub fn validate(&self, item: &Json, path: &str, scope: &Scope, depth: usize) -> (r:
        ValidationState)
        ensures
            r@ == validate_one(scope@, self@, item@, path@, depth as nat),
        decreases depth, 2nat, 0nat,
    {
        match self {
            Validator::Ref(v) => v.validate(item, path, scope, depth),
            Validator::Required(v) => v.validate(item, path, scope),
            Validator::PropertyNames(v) => v.validate(item, path, scope, depth),
            Validator::AllOf(v) => v.validate(item, path, scope, depth),
            Validator::AnyOf(v) => v.validate(item, path, scope, depth),
            Validator::OneOf(v) => v.validate(item, path, scope, depth),
            Validator::Not(v) => v.validate(item, path, scope, depth),
            Validator::Enum(v) => v.validate(item, path, scope),
            Validator::Const(v) => v.validate(item, path, scope),
            Validator::UniqueItems(v) => v.validate(item, path, scope),
            Validator::MaxLength(v) => v.validate(item, path, scope),
            Validator::MinLength(v) => v.validate(item, path, scope),
            Validator::MaxItems(v) => v.validate(item, path, scope),
            Validator::MinItems(v) => v.validate(item, path, scope),
            Validator::MaxProperties(v) => v.validate(item, path, scope),
            Validator::MinProperties(v) => v.validate(item, path, scope),
            Validator::Maximum(v) => v.validate(item, path, scope),
            Validator::ExclusiveMaximum(v) => v.validate(item, path, scope),
            Validator::Minimum(v) => v.validate(item, path, scope),
            Validator::ExclusiveMinimum(v) => v.validate(item, path, scope),
            Validator::DateTime(v) => v.validate(item, path, scope),
            Validator::Type(v) => v.validate(item, path, scope),
            Validator::Pattern(v) => v.validate(item, path, scope),
            Validator::Items(v) => v.validate(item, path, scope, depth),
            Validator::Properties(v) => v.validate(item, path, scope, depth),
            Validator::Contains(v) => v.validate(item, path, scope, depth),
            Validator::Dependencies(v) => v.validate(item, path, scope, depth),
            Validator::MultipleOf(v) => v.validate(item, path, scope),
            Validator::Custom(v) => v.validate(item, path),
        }
    }
}

} // verus!
