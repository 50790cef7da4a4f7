use crate::error::{DruidSegmentError, ErrorKind};
use crate::json::{
    json_as_array, json_as_bool, json_as_str, json_error_text, json_get, json_model,
    json_parsed, parse_json, Json,
};
use vstd::prelude::*;

verus! {

/// The value types that a column descriptor can name.
#[derive(Debug, Clone, Copy, PartialEq, Eq, Structural)]
pub enum ValueType {
    String,
    Long,
    Float,
    Double,
    Complex,
}

/// The header that precedes each column's payload, decoded from JSON.
#[derive(Debug, Clone)]
pub struct ColumnDescriptor {
    /// The type of the column's values.
    pub value_type: ValueType,
    /// Whether a row can hold several values.
    pub has_multiple_values: bool,
    /// The parts that the payload consists of, in order.
    pub parts: Vec<ColumnPartSerde>,
}

/// One entry of a descriptor's `parts`.
#[derive(Debug, Clone)]
pub struct ColumnPartSerde {
    /// The part's `type`: the name of its serialization.
    pub serde_type: String,
    /// The part as it was written, with every key that it holds, kept for
    /// readers that know its type.
    pub extra: serde_json::Value,
}

/// What a descriptor document holds.
pub struct DescriptorLayout {
    pub value_type: ValueType,
    pub has_multiple_values: bool,
    /// The `parts` array, item by item.
    pub parts: Seq<Json>,
}

/// The value type that an upper-case name stands for.
pub open spec fn value_type_named(name: Seq<char>) -> Option<ValueType> {
    if name == "STRING"@ {
        Some(ValueType::String)
    } else if name == "LONG"@ {
        Some(ValueType::Long)
    } else if name == "FLOAT"@ {
        Some(ValueType::Float)
    } else if name == "DOUBLE"@ {
        Some(ValueType::Double)
    } else if name == "COMPLEX"@ {
        Some(ValueType::Complex)
    } else {
        None
    }
}

/// The member of that name, where the document is an object that has one.
pub open spec fn member(document: Json, key: Seq<char>) -> Option<Json> {
    match document {
        Json::Object(members) => if members.dom().contains(key) {
            Some(members[key])
        } else {
            None
        },
        _ => None,
    }
}

/// The `type` of a part: the part must be an object whose `type` is a string.
pub open spec fn part_type(part: Json) -> Option<Seq<char>> {
    match member(part, "type"@) {
        Some(Json::String(name)) => Some(name),
        _ => None,
    }
}

/// Whether every item of a `parts` array has a `type`.
pub open spec fn all_typed(parts: Seq<Json>) -> bool {
    forall|i: int| 0 <= i < parts.len() ==> (#[trigger] part_type(parts[i])) is Some
}

/// The descriptor that a document holds, or `None` where it is not one: it
/// must be an object whose `valueType` is one of the five upper-case names,
/// whose `hasMultipleValues`, if there is one, is a boolean (absent means
/// false), and whose `parts` is an array of objects with a string `type`
/// each. Other members are ignored.
pub open spec fn descriptor_layout(document: Json) -> Option<DescriptorLayout> {
    match (member(document, "valueType"@), member(document, "parts"@)) {
        (Some(Json::String(name)), Some(Json::Array(parts))) => {
            let multiple = match member(document, "hasMultipleValues"@) {
                None => Some(false),
                Some(Json::Bool(b)) => Some(b),
                Some(_) => None,
            };
            match (value_type_named(name), multiple) {
                (Some(value_type), Some(has_multiple_values)) => if all_typed(parts) {
                    Some(DescriptorLayout { value_type, has_multiple_values, parts })
                } else {
                    None
                },
                _ => None,
            }
        },
        _ => None,
    }
}

/// A `JsonError` with the given static message.
fn json_failure<T>(msg: &str) -> (r: Result<T, DruidSegmentError>)
    ensures
        r matches Err(e) && e.spec_kind() == ErrorKind::JsonError,
{
    Err(DruidSegmentError::JsonError(msg.to_owned()))
}

/// Whether two strings hold the same text.
pub fn same_text(a: &str, b: &str) -> (r: bool)
    ensures
        r == (a@ == b@),
{
    a.to_owned() == b.to_owned()
}

impl ValueType {
    /// The value type that an upper-case name stands for.
    pub fn from_name(name: &str) -> (r: Option<ValueType>)
        ensures
            r == value_type_named(name@),
    {
        if same_text(name, "STRING") {
            Some(ValueType::String)
        } else if same_text(name, "LONG") {
            Some(ValueType::Long)
        } else if same_text(name, "FLOAT") {
            Some(ValueType::Float)
        } else if same_text(name, "DOUBLE") {
            Some(ValueType::Double)
        } else if same_text(name, "COMPLEX") {
            Some(ValueType::Complex)
        } else {
            None
        }
    }
}

impl ColumnPartSerde {
    /// Whether this part is what the given item of a `parts` array holds.
    pub open spec fn matches_part(&self, part: Json) -> bool {
        part_type(part) == Some(self.serde_type@) && json_model(self.extra) == part
    }

    /// Decodes one item of a `parts` array. `None` where it has no string `type`.
    pub fn from_json(value: &serde_json::Value) -> (r: Option<Self>)
        ensures
            match part_type(json_model(*value)) {
                Some(_) => r matches Some(part) && part.matches_part(json_model(*value)),
                None => r is None,
            },
    {
        match json_get(value, "type") {
            Some(name) => match json_as_str(name) {
                Some(name) => Some(
                    ColumnPartSerde { serde_type: name.to_owned(), extra: value.clone() },
                ),
                None => None,
            },
            None => None,
        }
    }
}

impl ColumnDescriptor {
    /// Whether this descriptor is what a document of the given layout holds.
    pub open spec fn matches_layout(&self, layout: DescriptorLayout) -> bool {
        &&& self.value_type == layout.value_type
        &&& self.has_multiple_values == layout.has_multiple_values
        &&& self.parts@.len() == layout.parts.len()
        &&& forall|i: int|
            0 <= i < self.parts@.len() ==> (#[trigger] self.parts@[i]).matches_part(layout.parts[i])
    }

    /// Decodes a descriptor from a parsed JSON document. A document of
    /// another shape is a `JsonError`.
    pub fn from_json(value: &serde_json::Value) -> (r: Result<Self, DruidSegmentError>)
        ensures
            match descriptor_layout(json_model(*value)) {
                Some(layout) => r matches Ok(d) && d.matches_layout(layout),
                None => r matches Err(e) && e.spec_kind() == ErrorKind::JsonError,
            },
    {
        let value_type = match json_get(value, "valueType") {
            Some(name) => match json_as_str(name) {
                Some(name) => match ValueType::from_name(name) {
                    Some(value_type) => value_type,
                    None => {
                        return json_failure("column descriptor: unknown valueType");
                    },
                },
                None => {
                    return json_failure("column descriptor: valueType is not a string");
                },
            },
            None => {
                return json_failure("column descriptor: missing field valueType");
            },
        };
        let has_multiple_values = match json_get(value, "hasMultipleValues") {
            Some(flag) => match json_as_bool(flag) {
                Some(flag) => flag,
                None => {
                    return json_failure("column descriptor: hasMultipleValues is not a boolean");
                },
            },
            None => false,
        };
        let items = match json_get(value, "parts") {
            Some(parts) => match json_as_array(parts) {
                Some(items) => items,
                None => {
                    return json_failure("column descriptor: parts is not an array");
                },
            },
            None => {
                return json_failure("column descriptor: missing field parts");
            },
        };
        let ghost layout_parts = json_model(*value)->Object_0["parts"@]->Array_0;
        let n = items.len();
        let mut parts: Vec<ColumnPartSerde> = Vec::with_capacity(n);
        let mut i: usize = 0;
        while i < n
            invariant
                i <= n == items@.len() == layout_parts.len(),
                member(json_model(*value), "parts"@) == Some(Json::Array(layout_parts)),
                forall|j: int| 0 <= j < n ==> json_model(#[trigger] items@[j]) == layout_parts[j],
                parts@.len() == i,
                forall|j: int| 0 <= j < i ==> (#[trigger] part_type(layout_parts[j])) is Some,
                forall|j: int|
                    0 <= j < i ==> (#[trigger] parts@[j]).matches_part(layout_parts[j]),
            decreases n - i,
        {
            match ColumnPartSerde::from_json(&items[i]) {
                Some(part) => {
                    parts.push(part);
                },
                None => {
                    assert(part_type(layout_parts[i as int]) is None);
                    return json_failure("column descriptor: a part has no type");
                },
            }
            i = i + 1;
        }
        Ok(ColumnDescriptor { value_type, has_multiple_values, parts })
    }

    /// Decodes a descriptor from JSON text. Text that is not JSON and JSON of
    /// another shape are both a `JsonError`.
    pub fn from_slice(bytes: &[u8]) -> (r: Result<Self, DruidSegmentError>)
        ensures
            match descriptor_parsed(bytes@) {
                Some(layout) => r matches Ok(d) && d.matches_layout(layout),
                None => r matches Err(e) && e.spec_kind() == ErrorKind::JsonError,
            },
    {
        match parse_json(bytes) {
            Ok(value) => ColumnDescriptor::from_json(&value),
            Err(e) => Err(DruidSegmentError::JsonError(json_error_text(&e))),
        }
    }
}

/// The descriptor that JSON text holds, or `None` where the text is not JSON
/// or not a descriptor.
pub open spec fn descriptor_parsed(bytes: Seq<u8>) -> Option<DescriptorLayout> {
    match json_parsed(bytes) {
        Some(document) => descriptor_layout(document),
        None => None,
    }
}

} // verus!
