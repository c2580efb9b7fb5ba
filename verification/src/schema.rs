//! The description of the blackboard's contents as a JSON Schema document:
//! one property for each key, with the JSON type of its value and the value
//! itself.

use vstd::prelude::*;
use crate::entries::{BlackboardValue, ValueKind, ValueView};

verus! {

/// The address of the JSON Schema draft that the document follows.
pub const SCHEMA_DRAFT: &'static str = "http://json-schema.org/draft-07/schema#";

/// The member of the document that holds the address of the draft.
pub const SCHEMA_MEMBER: &'static str = "$schema";

/// The member of the document, and of each property, that holds a JSON
/// type.
pub const TYPE_MEMBER: &'static str = "type";

/// The member of the document that holds the properties, one member for
/// each key.
pub const PROPERTIES_MEMBER: &'static str = "properties";

/// The member of each property that holds the key's current value.
pub const VALUE_MEMBER: &'static str = "value";

/// The JSON type of the document itself.
pub const SCHEMA_ROOT_TYPE: &'static str = "object";

/// The JSON types that a property can have.
#[derive(Clone, Copy, Debug, PartialEq, Eq, Structural)]
pub enum JsonType {
    String,
    Integer,
    Number,
    Boolean,
}

/// The JSON type under which a value of a kind is rendered. Both
/// floating-point kinds are numbers.
pub open spec fn json_type_of(kind: ValueKind) -> JsonType {
    match kind {
        ValueKind::Utf8String => JsonType::String,
        ValueKind::Int32 => JsonType::Integer,
        ValueKind::Float32 => JsonType::Number,
        ValueKind::Float64 => JsonType::Number,
        ValueKind::Bool => JsonType::Boolean,
    }
}

impl JsonType {
    /// The type's name in a schema.
    pub open spec fn spec_name(self) -> Seq<char> {
        match self {
            JsonType::String => "string"@,
            JsonType::Integer => "integer"@,
            JsonType::Number => "number"@,
            JsonType::Boolean => "boolean"@,
        }
    }

    /// The JSON type of a value of the given kind.
    pub fn of(kind: ValueKind) -> (json_type: JsonType)
        ensures
            json_type == json_type_of(kind),
    {
        match kind {
            ValueKind::Utf8String => JsonType::String,
            ValueKind::Int32 => JsonType::Integer,
            ValueKind::Float32 => JsonType::Number,
            ValueKind::Float64 => JsonType::Number,
            ValueKind::Bool => JsonType::Boolean,
        }
    }

    /// The type's name in a schema.
    pub fn name(&self) -> (name: &'static str)
        ensures
            name@ == self.spec_name(),
    {
        match self {
            JsonType::String => "string",
            JsonType::Integer => "integer",
            JsonType::Number => "number",
            JsonType::Boolean => "boolean",
        }
    }
}

/// A property of the schema: a key, the JSON type of its value, and the
/// value.
#[derive(Debug)]
pub struct SchemaProperty {
    pub key: String,
    pub json_type: JsonType,
    pub value: BlackboardValue,
}

impl View for SchemaProperty {
    type V = (Seq<char>, JsonType, ValueView);

    open spec fn view(&self) -> (Seq<char>, JsonType, ValueView) {
        (self.key@, self.json_type, self.value@)
    }
}

/// The views of a vector of properties.
pub open spec fn property_views(
    properties: Seq<SchemaProperty>,
) -> Seq<(Seq<char>, JsonType, ValueView)> {
    Seq::new(properties.len(), |i: int| properties[i]@)
}

/// The properties that describe a sequence of entries, one for each entry
/// and in the same order.
pub open spec fn schema_of(
    entries: Seq<(Seq<char>, ValueView)>,
) -> Seq<(Seq<char>, JsonType, ValueView)> {
    Seq::new(
        entries.len(),
        |i: int| (entries[i].0, json_type_of(entries[i].1.kind()), entries[i].1),
    )
}

} // verus!
