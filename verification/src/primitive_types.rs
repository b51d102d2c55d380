//! The kinds of value that the keyword `type` tells apart.

use crate::json::{Json, JsonValue};
use crate::text::str_eq;
use vstd::prelude::*;

verus! {

/// A kind of value, as the keyword `type` names it.
#[derive(Clone, Copy, Debug, PartialEq, Eq, Structural)]
pub enum PrimitiveType {
    Array,
    Boolean,
    Integer,
    Number,
    Null,
    Object,
    String,
}

impl PrimitiveType {
    /// The name of the kind.
    pub open spec fn name_spec(self) -> Seq<char> {
        match self {
            PrimitiveType::Array => "array"@,
            PrimitiveType::Boolean => "boolean"@,
            PrimitiveType::Integer => "integer"@,
            PrimitiveType::Number => "number"@,
            PrimitiveType::Null => "null"@,
            PrimitiveType::Object => "object"@,
            PrimitiveType::String => "string"@,
        }
    }

    /// The kind that goes by the name `name`.
    pub open spec fn named(name: Seq<char>) -> Option<PrimitiveType> {
        if name == "array"@ {
            Some(PrimitiveType::Array)
        } else if name == "boolean"@ {
            Some(PrimitiveType::Boolean)
        } else if name == "integer"@ {
            Some(PrimitiveType::Integer)
        } else if name == "number"@ {
            Some(PrimitiveType::Number)
        } else if name == "null"@ {
            Some(PrimitiveType::Null)
        } else if name == "object"@ {
            Some(PrimitiveType::Object)
        } else if name == "string"@ {
            Some(PrimitiveType::String)
        } else {
            None
        }
    }

    /// Whether `value` is of the kind. A whole number is an integer and a
    /// number.
    pub open spec fn admits(self, value: JsonValue) -> bool {
        match self {
            PrimitiveType::Array => value is Array,
            PrimitiveType::Boolean => value is Bool,
            PrimitiveType::Integer => value matches JsonValue::Number(n) && n.integer is Some,
            PrimitiveType::Number => value is Number,
            PrimitiveType::Null => value is Null,
            PrimitiveType::Object => value is Object,
            PrimitiveType::String => value is String,
        }
    }

    /// The name of the kind.
    pub fn name(self) -> (r: &'static str)
        ensures
            r@ == self.name_spec(),
    {
        match self {
            PrimitiveType::Array => "array",
            PrimitiveType::Boolean => "boolean",
            PrimitiveType::Integer => "integer",
            PrimitiveType::Number => "number",
            PrimitiveType::Null => "null",
            PrimitiveType::Object => "object",
            PrimitiveType::String => "string",
        }
    }

    /// The kind that goes by the name `name`.
    pub fn from_name(name: &str) -> (r: Option<PrimitiveType>)
        ensures
            r == Self::named(name@),
    {
        if str_eq(name, "array") {
            Some(PrimitiveType::Array)
        } else if str_eq(name, "boolean") {
            Some(PrimitiveType::Boolean)
        } else if str_eq(name, "integer") {
            Some(PrimitiveType::Integer)
        } else if str_eq(name, "number") {
            Some(PrimitiveType::Number)
        } else if str_eq(name, "null") {
            Some(PrimitiveType::Null)
        } else if str_eq(name, "object") {
            Some(PrimitiveType::Object)
        } else if str_eq(name, "string") {
            Some(PrimitiveType::String)
        } else {
            None
        }
    }

    /// Whether `value` is of the kind.
    pub fn check(self, value: &Json) -> (r: bool)
        ensures
            r == self.admits(value@),
    {
        match self {
            PrimitiveType::Array => value.is_array(),
            PrimitiveType::Boolean => value.is_bool(),
            PrimitiveType::Integer => match value.as_number() {
                Some(n) => n.integer.is_some(),
                None => false,
            },
            PrimitiveType::Number => value.as_number().is_some(),
            PrimitiveType::Null => value.is_null(),
            PrimitiveType::Object => value.is_object(),
            PrimitiveType::String => value.is_str(),
        }
    }
}

} // verus!
