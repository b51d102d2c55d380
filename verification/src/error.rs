//! What validation reports.
//!
//! Each kind of violation has a type of its own, which holds the path of the
//! value at fault. [`ValidationError`] is any one of them, and [`ErrorModel`]
//! is the model in which contracts speak of one.

use crate::validators::{state_model, StateModel, ValidationState};
use vstd::prelude::*;

verus! {

broadcast use {vstd::seq::group_seq_axioms, vstd::std_specs::vec::group_vec_axioms};

/// The kinds of violation.
#[derive(Clone, Copy, Debug, PartialEq, Eq, Structural)]
pub enum ErrorKind {
    Properties,
    Required,
    Format,
    WrongType,
    UniqueItems,
    AnyOf,
    OneOf,
    Not,
    Enum,
    Const,
    MaxLength,
    MinLength,
    MaxItems,
    MinItems,
    MaxProperties,
    MinProperties,
    Maximum,
    Minimum,
    Pattern,
    Items,
    Contains,
    MultipleOf,
}

/// The short name by which a program tells the kinds apart.
pub open spec fn code_of(kind: ErrorKind) -> Seq<char> {
    match kind {
        ErrorKind::Properties => "properties"@,
        ErrorKind::Required => "required"@,
        ErrorKind::Format => "format"@,
        ErrorKind::WrongType => "wrong_type"@,
        ErrorKind::UniqueItems => "unique_items"@,
        ErrorKind::AnyOf => "any_of"@,
        ErrorKind::OneOf => "one_of"@,
        ErrorKind::Not => "not"@,
        ErrorKind::Enum => "enum"@,
        ErrorKind::Const => "const"@,
        ErrorKind::MaxLength => "max_length"@,
        ErrorKind::MinLength => "min_length"@,
        ErrorKind::MaxItems => "max_items"@,
        ErrorKind::MinItems => "min_items"@,
        ErrorKind::MaxProperties => "max_properties"@,
        ErrorKind::MinProperties => "min_properties"@,
        ErrorKind::Maximum => "maximum"@,
        ErrorKind::Minimum => "minimum"@,
        ErrorKind::Pattern => "pattern"@,
        ErrorKind::Items => "items"@,
        ErrorKind::Contains => "contains"@,
        ErrorKind::MultipleOf => "multiple_of"@,
    }
}

/// The sentence that is shown to a reader.
pub open spec fn title_of(kind: ErrorKind) -> Seq<char> {
    match kind {
        ErrorKind::Properties => "Property conditions are not met"@,
        ErrorKind::Required => "This property is required"@,
        ErrorKind::Format => "Format is wrong"@,
        ErrorKind::WrongType => "Type of the value is wrong"@,
        ErrorKind::UniqueItems => "UniqueItems condition is not met"@,
        ErrorKind::AnyOf => "AnyOf conditions are not met"@,
        ErrorKind::OneOf => "OneOf conditions are not met"@,
        ErrorKind::Not => "Not condition is not met"@,
        ErrorKind::Enum => "Enum conditions are not met"@,
        ErrorKind::Const => "Const condition is not met"@,
        ErrorKind::MaxLength => "MaxLength condition is not met"@,
        ErrorKind::MinLength => "MinLength condition is not met"@,
        ErrorKind::MaxItems => "MaxItems condition is not met"@,
        ErrorKind::MinItems => "MinItems condition is not met"@,
        ErrorKind::MaxProperties => "MaxProperties condition is not met"@,
        ErrorKind::MinProperties => "MinProperties condition is not met"@,
        ErrorKind::Maximum => "Maximum condition is not met"@,
        ErrorKind::Minimum => "Minimum condition is not met"@,
        ErrorKind::Pattern => "Pattern condition is not met"@,
        ErrorKind::Items => "Items condition is not met"@,
        ErrorKind::Contains => "Contains condition is not met"@,
        ErrorKind::MultipleOf => "Wrong number of the value"@,
    }
}

/// The short name of a kind.
pub fn code_text(kind: ErrorKind) -> (r: &'static str)
    ensures
        r@ == code_of(kind),
{
    match kind {
        ErrorKind::Properties => "properties",
        ErrorKind::Required => "required",
        ErrorKind::Format => "format",
        ErrorKind::WrongType => "wrong_type",
        ErrorKind::UniqueItems => "unique_items",
        ErrorKind::AnyOf => "any_of",
        ErrorKind::OneOf => "one_of",
        ErrorKind::Not => "not",
        ErrorKind::Enum => "enum",
        ErrorKind::Const => "const",
        ErrorKind::MaxLength => "max_length",
        ErrorKind::MinLength => "min_length",
        ErrorKind::MaxItems => "max_items",
        ErrorKind::MinItems => "min_items",
        ErrorKind::MaxProperties => "max_properties",
        ErrorKind::MinProperties => "min_properties",
        ErrorKind::Maximum => "maximum",
        ErrorKind::Minimum => "minimum",
        ErrorKind::Pattern => "pattern",
        ErrorKind::Items => "items",
        ErrorKind::Contains => "contains",
        ErrorKind::MultipleOf => "multiple_of",
    }
}

/// The sentence of a kind.
pub fn title_text(kind: ErrorKind) -> (r: &'static str)
    ensures
        r@ == title_of(kind),
{
    match kind {
        ErrorKind::Properties => "Property conditions are not met",
        ErrorKind::Required => "This property is required",
        ErrorKind::Format => "Format is wrong",
        ErrorKind::WrongType => "Type of the value is wrong",
        ErrorKind::UniqueItems => "UniqueItems condition is not met",
        ErrorKind::AnyOf => "AnyOf conditions are not met",
        ErrorKind::OneOf => "OneOf conditions are not met",
        ErrorKind::Not => "Not condition is not met",
        ErrorKind::Enum => "Enum conditions are not met",
        ErrorKind::Const => "Const condition is not met",
        ErrorKind::MaxLength => "MaxLength condition is not met",
        ErrorKind::MinLength => "MinLength condition is not met",
        ErrorKind::MaxItems => "MaxItems condition is not met",
        ErrorKind::MinItems => "MinItems condition is not met",
        ErrorKind::MaxProperties => "MaxProperties condition is not met",
        ErrorKind::MinProperties => "MinProperties condition is not met",
        ErrorKind::Maximum => "Maximum condition is not met",
        ErrorKind::Minimum => "Minimum condition is not met",
        ErrorKind::Pattern => "Pattern condition is not met",
        ErrorKind::Items => "Items condition is not met",
        ErrorKind::Contains => "Contains condition is not met",
        ErrorKind::MultipleOf => "Wrong number of the value",
    }
}

/// Tells of which kind an error is.
pub trait GetTypeId {
    /// The kind of the error.
    spec fn kind(&self) -> ErrorKind;

    fn typeid(&self) -> (k: ErrorKind)
        ensures
            k == self.kind(),
    ;
}

/// What every error can be asked.
pub trait SimdjsonSchemaError {
    /// The short name of the error's kind.
    spec fn code(&self) -> Seq<char>;

    /// The sentence of the error's kind.
    spec fn title(&self) -> Seq<char>;

    /// The path of the value at fault.
    spec fn path_text(&self) -> Seq<char>;

    /// What the error adds in words, where it adds anything.
    spec fn detail_text(&self) -> Option<Seq<char>>;

    fn get_code(&self) -> (r: &str)
        ensures
            r@ == self.code(),
    ;

    fn get_path(&self) -> (r: &str)
        ensures
            r@ == self.path_text(),
    ;

    fn get_title(&self) -> (r: &str)
        ensures
            r@ == self.title(),
    ;

    fn get_detail(&self) -> (r: Option<&str>)
        ensures
            r is Some <==> self.detail_text() is Some,
            r matches Some(d) ==> self.detail_text() == Some(d@),
    ;
}

impl dyn SimdjsonSchemaError {
    /// Whether the error is of the kind `kind`: whether it goes by that
    /// kind's short name.
    pub fn is(&self, kind: ErrorKind) -> (r: bool)
        ensures
            r == (self.code() == code_of(kind)),
    {
        crate::text::str_eq(self.get_code(), code_text(kind))
    }
}

/// An object has a member that the schema does not allow.
#[derive(Debug)]
pub struct Properties {
    pub path: String,
    pub detail: String,
}

impl GetTypeId for Properties {
    open spec fn kind(&self) -> ErrorKind {
        ErrorKind::Properties
    }

    fn typeid(&self) -> (k: ErrorKind) {
        ErrorKind::Properties
    }
}

impl SimdjsonSchemaError for Properties {
    open spec fn code(&self) -> Seq<char> {
        code_of(ErrorKind::Properties)
    }

    open spec fn title(&self) -> Seq<char> {
        title_of(ErrorKind::Properties)
    }

    open spec fn path_text(&self) -> Seq<char> {
        self.path@
    }

    open spec fn detail_text(&self) -> Option<Seq<char>> {
        Some(self.detail@)
    }

    fn get_code(&self) -> (r: &str) {
        code_text(ErrorKind::Properties)
    }

    fn get_path(&self) -> (r: &str) {
        self.path.as_str()
    }

    fn get_title(&self) -> (r: &str) {
        title_text(ErrorKind::Properties)
    }

    fn get_detail(&self) -> (r: Option<&str>) {
        Some(self.detail.as_str())
    }
}

/// An object lacks a member that the schema requires.
#[derive(Debug)]
pub struct Required {
    pub path: String,
}

impl GetTypeId for Required {
    open spec fn kind(&self) -> ErrorKind {
        ErrorKind::Required
    }

    fn typeid(&self) -> (k: ErrorKind) {
        ErrorKind::Required
    }
}

impl SimdjsonSchemaError for Required {
    open spec fn code(&self) -> Seq<char> {
        code_of(ErrorKind::Required)
    }

    open spec fn title(&self) -> Seq<char> {
        title_of(ErrorKind::Required)
    }

    open spec fn path_text(&self) -> Seq<char> {
        self.path@
    }

    open spec fn detail_text(&self) -> Option<Seq<char>> {
        None
    }

    fn get_code(&self) -> (r: &str) {
        code_text(ErrorKind::Required)
    }

    fn get_path(&self) -> (r: &str) {
        self.path.as_str()
    }

    fn get_title(&self) -> (r: &str) {
        title_text(ErrorKind::Required)
    }

    fn get_detail(&self) -> (r: Option<&str>) {
        None
    }
}

/// A string is not written in the format that the schema names.
#[derive(Debug)]
pub struct Format {
    pub path: String,
    pub detail: String,
}

impl GetTypeId for Format {
    open spec fn kind(&self) -> ErrorKind {
        ErrorKind::Format
    }

    fn typeid(&self) -> (k: ErrorKind) {
        ErrorKind::Format
    }
}

impl SimdjsonSchemaError for Format {
    open spec fn code(&self) -> Seq<char> {
        code_of(ErrorKind::Format)
    }

    open spec fn title(&self) -> Seq<char> {
        title_of(ErrorKind::Format)
    }

    open spec fn path_text(&self) -> Seq<char> {
        self.path@
    }

    open spec fn detail_text(&self) -> Option<Seq<char>> {
        Some(self.detail@)
    }

    fn get_code(&self) -> (r: &str) {
        code_text(ErrorKind::Format)
    }

    fn get_path(&self) -> (r: &str) {
        self.path.as_str()
    }

    fn get_title(&self) -> (r: &str) {
        title_text(ErrorKind::Format)
    }

    fn get_detail(&self) -> (r: Option<&str>) {
        Some(self.detail.as_str())
    }
}

/// A value is of another kind than the schema allows.
#[derive(Debug)]
pub struct WrongType {
    pub path: String,
    pub detail: String,
}

impl GetTypeId for WrongType {
    open spec fn kind(&self) -> ErrorKind {
        ErrorKind::WrongType
    }

    fn typeid(&self) -> (k: ErrorKind) {
        ErrorKind::WrongType
    }
}

impl SimdjsonSchemaError for WrongType {
    open spec fn code(&self) -> Seq<char> {
        code_of(ErrorKind::WrongType)
    }

    open spec fn title(&self) -> Seq<char> {
        title_of(ErrorKind::WrongType)
    }

    open spec fn path_text(&self) -> Seq<char> {
        self.path@
    }

    open spec fn detail_text(&self) -> Option<Seq<char>> {
        Some(self.detail@)
    }

    fn get_code(&self) -> (r: &str) {
        code_text(ErrorKind::WrongType)
    }

    fn get_path(&self) -> (r: &str) {
        self.path.as_str()
    }

    fn get_title(&self) -> (r: &str) {
        title_text(ErrorKind::WrongType)
    }

    fn get_detail(&self) -> (r: Option<&str>) {
        Some(self.detail.as_str())
    }
}

/// An array holds the same value twice.
#[derive(Debug)]
pub struct UniqueItems {
    pub path: String,
}

impl GetTypeId for UniqueItems {
    open spec fn kind(&self) -> ErrorKind {
        ErrorKind::UniqueItems
    }

    fn typeid(&self) -> (k: ErrorKind) {
        ErrorKind::UniqueItems
    }
}

impl SimdjsonSchemaError for UniqueItems {
    open spec fn code(&self) -> Seq<char> {
        code_of(ErrorKind::UniqueItems)
    }

    open spec fn title(&self) -> Seq<char> {
        title_of(ErrorKind::UniqueItems)
    }

    open spec fn path_text(&self) -> Seq<char> {
        self.path@
    }

    open spec fn detail_text(&self) -> Option<Seq<char>> {
        None
    }

    fn get_code(&self) -> (r: &str) {
        code_text(ErrorKind::UniqueItems)
    }

    fn get_path(&self) -> (r: &str) {
        self.path.as_str()
    }

    fn get_title(&self) -> (r: &str) {
        title_text(ErrorKind::UniqueItems)
    }

    fn get_detail(&self) -> (r: Option<&str>) {
        None
    }
}

/// None of the alternatives accepts the value. `states` holds what each of them found.
#[derive(Debug)]
pub struct AnyOf {
    pub path: String,
    pub states: Vec<ValidationState>,
}

impl GetTypeId for AnyOf {
    open spec fn kind(&self) -> ErrorKind {
        ErrorKind::AnyOf
    }

    fn typeid(&self) -> (k: ErrorKind) {
        ErrorKind::AnyOf
    }
}

impl SimdjsonSchemaError for AnyOf {
    open spec fn code(&self) -> Seq<char> {
        code_of(ErrorKind::AnyOf)
    }

    open spec fn title(&self) -> Seq<char> {
        title_of(ErrorKind::AnyOf)
    }

    open spec fn path_text(&self) -> Seq<char> {
        self.path@
    }

    open spec fn detail_text(&self) -> Option<Seq<char>> {
        None
    }

    fn get_code(&self) -> (r: &str) {
        code_text(ErrorKind::AnyOf)
    }

    fn get_path(&self) -> (r: &str) {
        self.path.as_str()
    }

    fn get_title(&self) -> (r: &str) {
        title_text(ErrorKind::AnyOf)
    }

    fn get_detail(&self) -> (r: Option<&str>) {
        None
    }
}

/// Not exactly one of the alternatives accepts the value. `states` holds what each of them found.
#[derive(Debug)]
pub struct OneOf {
    pub path: String,
    pub states: Vec<ValidationState>,
}

impl GetTypeId for OneOf {
    open spec fn kind(&self) -> ErrorKind {
        ErrorKind::OneOf
    }

    fn typeid(&self) -> (k: ErrorKind) {
        ErrorKind::OneOf
    }
}

impl SimdjsonSchemaError for OneOf {
    open spec fn code(&self) -> Seq<char> {
        code_of(ErrorKind::OneOf)
    }

    open spec fn title(&self) -> Seq<char> {
        title_of(ErrorKind::OneOf)
    }

    open spec fn path_text(&self) -> Seq<char> {
        self.path@
    }

    open spec fn detail_text(&self) -> Option<Seq<char>> {
        None
    }

    fn get_code(&self) -> (r: &str) {
        code_text(ErrorKind::OneOf)
    }

    fn get_path(&self) -> (r: &str) {
        self.path.as_str()
    }

    fn get_title(&self) -> (r: &str) {
        title_text(ErrorKind::OneOf)
    }

    fn get_detail(&self) -> (r: Option<&str>) {
        None
    }
}

/// The value is accepted by a schema that it must not match.
#[derive(Debug)]
pub struct Not {
    pub path: String,
}

impl GetTypeId for Not {
    open spec fn kind(&self) -> ErrorKind {
        ErrorKind::Not
    }

    fn typeid(&self) -> (k: ErrorKind) {
        ErrorKind::Not
    }
}

impl SimdjsonSchemaError for Not {
    open spec fn code(&self) -> Seq<char> {
        code_of(ErrorKind::Not)
    }

    open spec fn title(&self) -> Seq<char> {
        title_of(ErrorKind::Not)
    }

    open spec fn path_text(&self) -> Seq<char> {
        self.path@
    }

    open spec fn detail_text(&self) -> Option<Seq<char>> {
        None
    }

    fn get_code(&self) -> (r: &str) {
        code_text(ErrorKind::Not)
    }

    fn get_path(&self) -> (r: &str) {
        self.path.as_str()
    }

    fn get_title(&self) -> (r: &str) {
        title_text(ErrorKind::Not)
    }

    fn get_detail(&self) -> (r: Option<&str>) {
        None
    }
}

/// The value is none of the values that the schema lists.
#[derive(Debug)]
pub struct Enum {
    pub path: String,
}

impl GetTypeId for Enum {
    open spec fn kind(&self) -> ErrorKind {
        ErrorKind::Enum
    }

    fn typeid(&self) -> (k: ErrorKind) {
        ErrorKind::Enum
    }
}

impl SimdjsonSchemaError for Enum {
    open spec fn code(&self) -> Seq<char> {
        code_of(ErrorKind::Enum)
    }

    open spec fn title(&self) -> Seq<char> {
        title_of(ErrorKind::Enum)
    }

    open spec fn path_text(&self) -> Seq<char> {
        self.path@
    }

    open spec fn detail_text(&self) -> Option<Seq<char>> {
        None
    }

    fn get_code(&self) -> (r: &str) {
        code_text(ErrorKind::Enum)
    }

    fn get_path(&self) -> (r: &str) {
        self.path.as_str()
    }

    fn get_title(&self) -> (r: &str) {
        title_text(ErrorKind::Enum)
    }

    fn get_detail(&self) -> (r: Option<&str>) {
        None
    }
}

/// The value is not the one value that the schema names.
#[derive(Debug)]
pub struct Const {
    pub path: String,
}

impl GetTypeId for Const {
    open spec fn kind(&self) -> ErrorKind {
        ErrorKind::Const
    }

    fn typeid(&self) -> (k: ErrorKind) {
        ErrorKind::Const
    }
}

impl SimdjsonSchemaError for Const {
    open spec fn code(&self) -> Seq<char> {
        code_of(ErrorKind::Const)
    }

    open spec fn title(&self) -> Seq<char> {
        title_of(ErrorKind::Const)
    }

    open spec fn path_text(&self) -> Seq<char> {
        self.path@
    }

    open spec fn detail_text(&self) -> Option<Seq<char>> {
        None
    }

    fn get_code(&self) -> (r: &str) {
        code_text(ErrorKind::Const)
    }

    fn get_path(&self) -> (r: &str) {
        self.path.as_str()
    }

    fn get_title(&self) -> (r: &str) {
        title_text(ErrorKind::Const)
    }

    fn get_detail(&self) -> (r: Option<&str>) {
        None
    }
}

/// A string is longer than the schema allows.
#[derive(Debug)]
pub struct MaxLength {
    pub path: String,
}

impl GetTypeId for MaxLength {
    open spec fn kind(&self) -> ErrorKind {
        ErrorKind::MaxLength
    }

    fn typeid(&self) -> (k: ErrorKind) {
        ErrorKind::MaxLength
    }
}

impl SimdjsonSchemaError for MaxLength {
    open spec fn code(&self) -> Seq<char> {
        code_of(ErrorKind::MaxLength)
    }

    open spec fn title(&self) -> Seq<char> {
        title_of(ErrorKind::MaxLength)
    }

    open spec fn path_text(&self) -> Seq<char> {
        self.path@
    }

    open spec fn detail_text(&self) -> Option<Seq<char>> {
        None
    }

    fn get_code(&self) -> (r: &str) {
        code_text(ErrorKind::MaxLength)
    }

    fn get_path(&self) -> (r: &str) {
        self.path.as_str()
    }

    fn get_title(&self) -> (r: &str) {
        title_text(ErrorKind::MaxLength)
    }

    fn get_detail(&self) -> (r: Option<&str>) {
        None
    }
}

/// A string is shorter than the schema allows.
#[derive(Debug)]
pub struct MinLength {
    pub path: String,
}

impl GetTypeId for MinLength {
    open spec fn kind(&self) -> ErrorKind {
        ErrorKind::MinLength
    }

    fn typeid(&self) -> (k: ErrorKind) {
        ErrorKind::MinLength
    }
}

impl SimdjsonSchemaError for MinLength {
    open spec fn code(&self) -> Seq<char> {
        code_of(ErrorKind::MinLength)
    }

    open spec fn title(&self) -> Seq<char> {
        title_of(ErrorKind::MinLength)
    }

    open spec fn path_text(&self) -> Seq<char> {
        self.path@
    }

    open spec fn detail_text(&self) -> Option<Seq<char>> {
        None
    }

    fn get_code(&self) -> (r: &str) {
        code_text(ErrorKind::MinLength)
    }

    fn get_path(&self) -> (r: &str) {
        self.path.as_str()
    }

    fn get_title(&self) -> (r: &str) {
        title_text(ErrorKind::MinLength)
    }

    fn get_detail(&self) -> (r: Option<&str>) {
        None
    }
}

/// An array has more elements than the schema allows.
#[derive(Debug)]
pub struct MaxItems {
    pub path: String,
}

impl GetTypeId for MaxItems {
    open spec fn kind(&self) -> ErrorKind {
        ErrorKind::MaxItems
    }

    fn typeid(&self) -> (k: ErrorKind) {
        ErrorKind::MaxItems
    }
}

impl SimdjsonSchemaError for MaxItems {
    open spec fn code(&self) -> Seq<char> {
        code_of(ErrorKind::MaxItems)
    }

    open spec fn title(&self) -> Seq<char> {
        title_of(ErrorKind::MaxItems)
    }

    open spec fn path_text(&self) -> Seq<char> {
        self.path@
    }

    open spec fn detail_text(&self) -> Option<Seq<char>> {
        None
    }

    fn get_code(&self) -> (r: &str) {
        code_text(ErrorKind::MaxItems)
    }

    fn get_path(&self) -> (r: &str) {
        self.path.as_str()
    }

    fn get_title(&self) -> (r: &str) {
        title_text(ErrorKind::MaxItems)
    }

    fn get_detail(&self) -> (r: Option<&str>) {
        None
    }
}

/// An array has fewer elements than the schema allows.
#[derive(Debug)]
pub struct MinItems {
    pub path: String,
}

impl GetTypeId for MinItems {
    open spec fn kind(&self) -> ErrorKind {
        ErrorKind::MinItems
    }

    fn typeid(&self) -> (k: ErrorKind) {
        ErrorKind::MinItems
    }
}

impl SimdjsonSchemaError for MinItems {
    open spec fn code(&self) -> Seq<char> {
        code_of(ErrorKind::MinItems)
    }

    open spec fn title(&self) -> Seq<char> {
        title_of(ErrorKind::MinItems)
    }

    open spec fn path_text(&self) -> Seq<char> {
        self.path@
    }

    open spec fn detail_text(&self) -> Option<Seq<char>> {
        None
    }

    fn get_code(&self) -> (r: &str) {
        code_text(ErrorKind::MinItems)
    }

    fn get_path(&self) -> (r: &str) {
        self.path.as_str()
    }

    fn get_title(&self) -> (r: &str) {
        title_text(ErrorKind::MinItems)
    }

    fn get_detail(&self) -> (r: Option<&str>) {
        None
    }
}

/// An object has more members than the schema allows.
#[derive(Debug)]
pub struct MaxProperties {
    pub path: String,
}

impl GetTypeId for MaxProperties {
    open spec fn kind(&self) -> ErrorKind {
        ErrorKind::MaxProperties
    }

    fn typeid(&self) -> (k: ErrorKind) {
        ErrorKind::MaxProperties
    }
}

impl SimdjsonSchemaError for MaxProperties {
    open spec fn code(&self) -> Seq<char> {
        code_of(ErrorKind::MaxProperties)
    }

    open spec fn title(&self) -> Seq<char> {
        title_of(ErrorKind::MaxProperties)
    }

    open spec fn path_text(&self) -> Seq<char> {
        self.path@
    }

    open spec fn detail_text(&self) -> Option<Seq<char>> {
        None
    }

    fn get_code(&self) -> (r: &str) {
        code_text(ErrorKind::MaxProperties)
    }

    fn get_path(&self) -> (r: &str) {
        self.path.as_str()
    }

    fn get_title(&self) -> (r: &str) {
        title_text(ErrorKind::MaxProperties)
    }

    fn get_detail(&self) -> (r: Option<&str>) {
        None
    }
}

/// An object has fewer members than the schema allows.
#[derive(Debug)]
pub struct MinProperties {
    pub path: String,
}

impl GetTypeId for MinProperties {
    open spec fn kind(&self) -> ErrorKind {
        ErrorKind::MinProperties
    }

    fn typeid(&self) -> (k: ErrorKind) {
        ErrorKind::MinProperties
    }
}

impl SimdjsonSchemaError for MinProperties {
    open spec fn code(&self) -> Seq<char> {
        code_of(ErrorKind::MinProperties)
    }

    open spec fn title(&self) -> Seq<char> {
        title_of(ErrorKind::MinProperties)
    }

    open spec fn path_text(&self) -> Seq<char> {
        self.path@
    }

    open spec fn detail_text(&self) -> Option<Seq<char>> {
        None
    }

    fn get_code(&self) -> (r: &str) {
        code_text(ErrorKind::MinProperties)
    }

    fn get_path(&self) -> (r: &str) {
        self.path.as_str()
    }

    fn get_title(&self) -> (r: &str) {
        title_text(ErrorKind::MinProperties)
    }

    fn get_detail(&self) -> (r: Option<&str>) {
        None
    }
}

/// A number is above the bound of the schema.
#[derive(Debug)]
pub struct Maximum {
    pub path: String,
}

impl GetTypeId for Maximum {
    open spec fn kind(&self) -> ErrorKind {
        ErrorKind::Maximum
    }

    fn typeid(&self) -> (k: ErrorKind) {
        ErrorKind::Maximum
    }
}

impl SimdjsonSchemaError for Maximum {
    open spec fn code(&self) -> Seq<char> {
        code_of(ErrorKind::Maximum)
    }

    open spec fn title(&self) -> Seq<char> {
        title_of(ErrorKind::Maximum)
    }

    open spec fn path_text(&self) -> Seq<char> {
        self.path@
    }

    open spec fn detail_text(&self) -> Option<Seq<char>> {
        None
    }

    fn get_code(&self) -> (r: &str) {
        code_text(ErrorKind::Maximum)
    }

    fn get_path(&self) -> (r: &str) {
        self.path.as_str()
    }

    fn get_title(&self) -> (r: &str) {
        title_text(ErrorKind::Maximum)
    }

    fn get_detail(&self) -> (r: Option<&str>) {
        None
    }
}

/// A number is below the bound of the schema.
#[derive(Debug)]
pub struct Minimum {
    pub path: String,
}

impl GetTypeId for Minimum {
    open spec fn kind(&self) -> ErrorKind {
        ErrorKind::Minimum
    }

    fn typeid(&self) -> (k: ErrorKind) {
        ErrorKind::Minimum
    }
}

impl SimdjsonSchemaError for Minimum {
    open spec fn code(&self) -> Seq<char> {
        code_of(ErrorKind::Minimum)
    }

    open spec fn title(&self) -> Seq<char> {
        title_of(ErrorKind::Minimum)
    }

    open spec fn path_text(&self) -> Seq<char> {
        self.path@
    }

    open spec fn detail_text(&self) -> Option<Seq<char>> {
        None
    }

    fn get_code(&self) -> (r: &str) {
        code_text(ErrorKind::Minimum)
    }

    fn get_path(&self) -> (r: &str) {
        self.path.as_str()
    }

    fn get_title(&self) -> (r: &str) {
        title_text(ErrorKind::Minimum)
    }

    fn get_detail(&self) -> (r: Option<&str>) {
        None
    }
}

/// A string does not match the regular expression of the schema.
#[derive(Debug)]
pub struct Pattern {
    pub path: String,
}

impl GetTypeId for Pattern {
    open spec fn kind(&self) -> ErrorKind {
        ErrorKind::Pattern
    }

    fn typeid(&self) -> (k: ErrorKind) {
        ErrorKind::Pattern
    }
}

impl SimdjsonSchemaError for Pattern {
    open spec fn code(&self) -> Seq<char> {
        code_of(ErrorKind::Pattern)
    }

    open spec fn title(&self) -> Seq<char> {
        title_of(ErrorKind::Pattern)
    }

    open spec fn path_text(&self) -> Seq<char> {
        self.path@
    }

    open spec fn detail_text(&self) -> Option<Seq<char>> {
        None
    }

    fn get_code(&self) -> (r: &str) {
        code_text(ErrorKind::Pattern)
    }

    fn get_path(&self) -> (r: &str) {
        self.path.as_str()
    }

    fn get_title(&self) -> (r: &str) {
        title_text(ErrorKind::Pattern)
    }

    fn get_detail(&self) -> (r: Option<&str>) {
        None
    }
}

/// An array has an element that the schema does not allow.
#[derive(Debug)]
pub struct Items {
    pub path: String,
    pub detail: String,
}

impl GetTypeId for Items {
    open spec fn kind(&self) -> ErrorKind {
        ErrorKind::Items
    }

    fn typeid(&self) -> (k: ErrorKind) {
        ErrorKind::Items
    }
}

impl SimdjsonSchemaError for Items {
    open spec fn code(&self) -> Seq<char> {
        code_of(ErrorKind::Items)
    }

    open spec fn title(&self) -> Seq<char> {
        title_of(ErrorKind::Items)
    }

    open spec fn path_text(&self) -> Seq<char> {
        self.path@
    }

    open spec fn detail_text(&self) -> Option<Seq<char>> {
        Some(self.detail@)
    }

    fn get_code(&self) -> (r: &str) {
        code_text(ErrorKind::Items)
    }

    fn get_path(&self) -> (r: &str) {
        self.path.as_str()
    }

    fn get_title(&self) -> (r: &str) {
        title_text(ErrorKind::Items)
    }

    fn get_detail(&self) -> (r: Option<&str>) {
        Some(self.detail.as_str())
    }
}

/// An array has no element that matches the schema.
#[derive(Debug)]
pub struct Contains {
    pub path: String,
}

impl GetTypeId for Contains {
    open spec fn kind(&self) -> ErrorKind {
        ErrorKind::Contains
    }

    fn typeid(&self) -> (k: ErrorKind) {
        ErrorKind::Contains
    }
}

impl SimdjsonSchemaError for Contains {
    open spec fn code(&self) -> Seq<char> {
        code_of(ErrorKind::Contains)
    }

    open spec fn title(&self) -> Seq<char> {
        title_of(ErrorKind::Contains)
    }

    open spec fn path_text(&self) -> Seq<char> {
        self.path@
    }

    open spec fn detail_text(&self) -> Option<Seq<char>> {
        None
    }

    fn get_code(&self) -> (r: &str) {
        code_text(ErrorKind::Contains)
    }

    fn get_path(&self) -> (r: &str) {
        self.path.as_str()
    }

    fn get_title(&self) -> (r: &str) {
        title_text(ErrorKind::Contains)
    }

    fn get_detail(&self) -> (r: Option<&str>) {
        None
    }
}

/// A whole number is no multiple of the number of the schema.
#[derive(Debug)]
pub struct MultipleOf {
    pub path: String,
}

impl GetTypeId for MultipleOf {
    open spec fn kind(&self) -> ErrorKind {
        ErrorKind::MultipleOf
    }

    fn typeid(&self) -> (k: ErrorKind) {
        ErrorKind::MultipleOf
    }
}

impl SimdjsonSchemaError for MultipleOf {
    open spec fn code(&self) -> Seq<char> {
        code_of(ErrorKind::MultipleOf)
    }

    open spec fn title(&self) -> Seq<char> {
        title_of(ErrorKind::MultipleOf)
    }

    open spec fn path_text(&self) -> Seq<char> {
        self.path@
    }

    open spec fn detail_text(&self) -> Option<Seq<char>> {
        None
    }

    fn get_code(&self) -> (r: &str) {
        code_text(ErrorKind::MultipleOf)
    }

    fn get_path(&self) -> (r: &str) {
        self.path.as_str()
    }

    fn get_title(&self) -> (r: &str) {
        title_text(ErrorKind::MultipleOf)
    }

    fn get_detail(&self) -> (r: Option<&str>) {
        None
    }
}

/// An error of any kind.
#[derive(Debug)]
pub enum ValidationError {
    Properties(Properties),
    Required(Required),
    Format(Format),
    WrongType(WrongType),
    UniqueItems(UniqueItems),
    AnyOf(AnyOf),
    OneOf(OneOf),
    Not(Not),
    Enum(Enum),
    Const(Const),
    MaxLength(MaxLength),
    MinLength(MinLength),
    MaxItems(MaxItems),
    MinItems(MinItems),
    MaxProperties(MaxProperties),
    MinProperties(MinProperties),
    Maximum(Maximum),
    Minimum(Minimum),
    Pattern(Pattern),
    Items(Items),
    Contains(Contains),
    MultipleOf(MultipleOf),
}

/// The errors of a validation, in the order in which they were found.
pub type SimdjsonSchemaErrors = Vec<ValidationError>;

/// The model of an error: its kind, the path of the value at fault, what it
/// adds in words, and, for an error about alternatives, what each alternative
/// found.
pub struct ErrorModel {
    pub kind: ErrorKind,
    pub path: Seq<char>,
    pub detail: Option<Seq<char>>,
    pub states: Seq<StateModel>,
}

/// The models of the states that an error about alternatives holds.
pub open spec fn states_model(states: Vec<ValidationState>) -> Seq<StateModel>
    decreases states, 0nat,
{
    Seq::new(
        states.len() as nat,
        |i: int|
            if 0 <= i < states.len() {
                state_model(states[i])
            } else {
                StateModel { errors: Seq::empty(), missing: Seq::empty(), exhausted: false }
            },
    )
}

/// The model of an error.
pub open spec fn error_model(e: ValidationError) -> ErrorModel
    decreases e, 0nat,
{
    match e {
        ValidationError::Properties(x) => ErrorModel {
            kind: ErrorKind::Properties,
            path: x.path@,
            detail: Some(x.detail@),
            states: Seq::empty(),
        },
        ValidationError::Required(x) => ErrorModel {
            kind: ErrorKind::Required,
            path: x.path@,
            detail: None,
            states: Seq::empty(),
        },
        ValidationError::Format(x) => ErrorModel {
            kind: ErrorKind::Format,
            path: x.path@,
            detail: Some(x.detail@),
            states: Seq::empty(),
        },
        ValidationError::WrongType(x) => ErrorModel {
            kind: ErrorKind::WrongType,
            path: x.path@,
            detail: Some(x.detail@),
            states: Seq::empty(),
        },
        ValidationError::UniqueItems(x) => ErrorModel {
            kind: ErrorKind::UniqueItems,
            path: x.path@,
            detail: None,
            states: Seq::empty(),
        },
        ValidationError::AnyOf(x) => ErrorModel {
            kind: ErrorKind::AnyOf,
            path: x.path@,
            detail: None,
            states: states_model(x.states),
        },
        ValidationError::OneOf(x) => ErrorModel {
            kind: ErrorKind::OneOf,
            path: x.path@,
            detail: None,
            states: states_model(x.states),
        },
        ValidationError::Not(x) => ErrorModel {
            kind: ErrorKind::Not,
            path: x.path@,
            detail: None,
            states: Seq::empty(),
        },
        ValidationError::Enum(x) => ErrorModel {
            kind: ErrorKind::Enum,
            path: x.path@,
            detail: None,
            states: Seq::empty(),
        },
        ValidationError::Const(x) => ErrorModel {
            kind: ErrorKind::Const,
            path: x.path@,
            detail: None,
            states: Seq::empty(),
        },
        ValidationError::MaxLength(x) => ErrorModel {
            kind: ErrorKind::MaxLength,
            path: x.path@,
            detail: None,
            states: Seq::empty(),
        },
        ValidationError::MinLength(x) => ErrorModel {
            kind: ErrorKind::MinLength,
            path: x.path@,
            detail: None,
            states: Seq::empty(),
        },
        ValidationError::MaxItems(x) => ErrorModel {
            kind: ErrorKind::MaxItems,
            path: x.path@,
            detail: None,
            states: Seq::empty(),
        },
        ValidationError::MinItems(x) => ErrorModel {
            kind: ErrorKind::MinItems,
            path: x.path@,
            detail: None,
            states: Seq::empty(),
        },
        ValidationError::MaxProperties(x) => ErrorModel {
            kind: ErrorKind::MaxProperties,
            path: x.path@,
            detail: None,
            states: Seq::empty(),
        },
        ValidationError::MinProperties(x) => ErrorModel {
            kind: ErrorKind::MinProperties,
            path: x.path@,
            detail: None,
            states: Seq::empty(),
        },
        ValidationError::Maximum(x) => ErrorModel {
            kind: ErrorKind::Maximum,
            path: x.path@,
            detail: None,
            states: Seq::empty(),
        },
        ValidationError::Minimum(x) => ErrorModel {
            kind: ErrorKind::Minimum,
            path: x.path@,
            detail: None,
            states: Seq::empty(),
        },
        ValidationError::Pattern(x) => ErrorModel {
            kind: ErrorKind::Pattern,
            path: x.path@,
            detail: None,
            states: Seq::empty(),
        },
        ValidationError::Items(x) => ErrorModel {
            kind: ErrorKind::Items,
            path: x.path@,
            detail: Some(x.detail@),
            states: Seq::empty(),
        },
        ValidationError::Contains(x) => ErrorModel {
            kind: ErrorKind::Contains,
            path: x.path@,
            detail: None,
            states: Seq::empty(),
        },
        ValidationError::MultipleOf(x) => ErrorModel {
            kind: ErrorKind::MultipleOf,
            path: x.path@,
            detail: None,
            states: Seq::empty(),
        },
    }
}

impl View for ValidationError {
    type V = ErrorModel;

    open spec fn view(&self) -> ErrorModel {
        error_model(*self)
    }
}

impl GetTypeId for ValidationError {
    open spec fn kind(&self) -> ErrorKind {
        self@.kind
    }

    fn typeid(&self) -> (k: ErrorKind) {
        match self {
            ValidationError::Properties(x) => x.typeid(),
            ValidationError::Required(x) => x.typeid(),
            ValidationError::Format(x) => x.typeid(),
            ValidationError::WrongType(x) => x.typeid(),
            ValidationError::UniqueItems(x) => x.typeid(),
            ValidationError::AnyOf(x) => x.typeid(),
            ValidationError::OneOf(x) => x.typeid(),
            ValidationError::Not(x) => x.typeid(),
            ValidationError::Enum(x) => x.typeid(),
            ValidationError::Const(x) => x.typeid(),
            ValidationError::MaxLength(x) => x.typeid(),
            ValidationError::MinLength(x) => x.typeid(),
            ValidationError::MaxItems(x) => x.typeid(),
            ValidationError::MinItems(x) => x.typeid(),
            ValidationError::MaxProperties(x) => x.typeid(),
            ValidationError::MinProperties(x) => x.typeid(),
            ValidationError::Maximum(x) => x.typeid(),
            ValidationError::Minimum(x) => x.typeid(),
            ValidationError::Pattern(x) => x.typeid(),
            ValidationError::Items(x) => x.typeid(),
            ValidationError::Contains(x) => x.typeid(),
            ValidationError::MultipleOf(x) => x.typeid(),
        }
    }
}

impl SimdjsonSchemaError for ValidationError {
    open spec fn code(&self) -> Seq<char> {
        code_of(self@.kind)
    }

    open spec fn title(&self) -> Seq<char> {
        title_of(self@.kind)
    }

    open spec fn path_text(&self) -> Seq<char> {
        self@.path
    }

    open spec fn detail_text(&self) -> Option<Seq<char>> {
        self@.detail
    }

    fn get_code(&self) -> (r: &str) {
        code_text(self.typeid())
    }

    fn get_title(&self) -> (r: &str) {
        title_text(self.typeid())
    }

    fn get_path(&self) -> (r: &str) {
        match self {
            ValidationError::Properties(x) => x.get_path(),
            ValidationError::Required(x) => x.get_path(),
            ValidationError::Format(x) => x.get_path(),
            ValidationError::WrongType(x) => x.get_path(),
            ValidationError::UniqueItems(x) => x.get_path(),
            ValidationError::AnyOf(x) => x.get_path(),
            ValidationError::OneOf(x) => x.get_path(),
            ValidationError::Not(x) => x.get_path(),
            ValidationError::Enum(x) => x.get_path(),
            ValidationError::Const(x) => x.get_path(),
            ValidationError::MaxLength(x) => x.get_path(),
            ValidationError::MinLength(x) => x.get_path(),
            ValidationError::MaxItems(x) => x.get_path(),
            ValidationError::MinItems(x) => x.get_path(),
            ValidationError::MaxProperties(x) => x.get_path(),
            ValidationError::MinProperties(x) => x.get_path(),
            ValidationError::Maximum(x) => x.get_path(),
            ValidationError::Minimum(x) => x.get_path(),
            ValidationError::Pattern(x) => x.get_path(),
            ValidationError::Items(x) => x.get_path(),
            ValidationError::Contains(x) => x.get_path(),
            ValidationError::MultipleOf(x) => x.get_path(),
        }
    }

    fn get_detail(&self) -> (r: Option<&str>) {
        match self {
            ValidationError::Properties(x) => x.get_detail(),
            ValidationError::Required(x) => x.get_detail(),
            ValidationError::Format(x) => x.get_detail(),
            ValidationError::WrongType(x) => x.get_detail(),
            ValidationError::UniqueItems(x) => x.get_detail(),
            ValidationError::AnyOf(x) => x.get_detail(),
            ValidationError::OneOf(x) => x.get_detail(),
            ValidationError::Not(x) => x.get_detail(),
            ValidationError::Enum(x) => x.get_detail(),
            ValidationError::Const(x) => x.get_detail(),
            ValidationError::MaxLength(x) => x.get_detail(),
            ValidationError::MinLength(x) => x.get_detail(),
            ValidationError::MaxItems(x) => x.get_detail(),
            ValidationError::MinItems(x) => x.get_detail(),
            ValidationError::MaxProperties(x) => x.get_detail(),
            ValidationError::MinProperties(x) => x.get_detail(),
            ValidationError::Maximum(x) => x.get_detail(),
            ValidationError::Minimum(x) => x.get_detail(),
            ValidationError::Pattern(x) => x.get_detail(),
            ValidationError::Items(x) => x.get_detail(),
            ValidationError::Contains(x) => x.get_detail(),
            ValidationError::MultipleOf(x) => x.get_detail(),
        }
    }
}

impl ValidationError {
    /// Whether the error is of the kind `kind`.
    pub fn is(&self, kind: ErrorKind) -> (r: bool)
        ensures
            r == (self@.kind == kind),
    {
        self.typeid() == kind
    }

    /// What each alternative found, for an error about alternatives; nothing
    /// for any other.
    pub fn states(&self) -> (r: Option<&Vec<ValidationState>>)
        ensures
            r is Some <==> (self@.kind == ErrorKind::AnyOf || self@.kind == ErrorKind::OneOf),
            r matches Some(s) ==> states_model(*s) == self@.states,
    {
        match self {
            ValidationError::AnyOf(x) => Some(&x.states),
            ValidationError::OneOf(x) => Some(&x.states),
            _ => None,
        }
    }
}

} // verus!
