pub mod bitmap;
pub mod blocks;
pub mod compressed_doubles;
pub mod compressed_ints;
pub mod compressed_longs;
pub mod double;
pub mod float;
pub mod generic_indexed;
pub mod long;
pub mod longs_round_trip;
pub mod round_trip;
pub mod string;
pub mod time;
pub mod truncation;
pub mod vsize_ints;

use crate::byte_order::{be_i32, read_i32_at};
use crate::column::double::{double_column, read_double_column};
use crate::column::float::{float_column, read_float_column};
use crate::column::long::{long_column, read_long_column};
use crate::column::string::{read_string_column, spells_optional, string_column};
use crate::column::time::read_time_column;
use crate::error::{invalid_data, DruidSegmentError, ErrorKind};
use crate::segment::column_descriptor::{
    descriptor_parsed, same_text, ColumnDescriptor, DescriptorLayout, ValueType,
};
use vstd::prelude::*;
use vstd::slice::slice_subrange;

verus! {

/// The descriptor text at the start of a column and the payload behind it:
/// a big-endian `i32` length, that many bytes of JSON, then the payload.
/// `None` where the length is missing or negative or exceeds the buffer.
pub open spec fn header_split(data: Seq<u8>) -> Option<(Seq<u8>, Seq<u8>)> {
    if data.len() >= 4 && 0 <= be_i32(data, 0) && 4 + be_i32(data, 0) <= data.len() {
        Some(
            (
                data.subrange(4, 4 + be_i32(data, 0)),
                data.subrange(4 + be_i32(data, 0), data.len() as int),
            ),
        )
    } else {
        None
    }
}

/// The descriptor of a column and the payload behind it. A length that does
/// not fit is invalid data; text that is not a descriptor is a JSON error.
pub open spec fn column_header(data: Seq<u8>) -> Result<(DescriptorLayout, Seq<u8>), ErrorKind> {
    match header_split(data) {
        None => Err(ErrorKind::InvalidData),
        Some((text, payload)) => match descriptor_parsed(text) {
            Some(layout) => Ok((layout, payload)),
            None => Err(ErrorKind::JsonError),
        },
    }
}

/// The values of one decoded column.
pub enum ColumnValues {
    /// Milliseconds since the Unix epoch.
    Timestamp(Seq<i64>),
    /// UTF-8 bytes of each string, `None` for a null slot.
    Text(Seq<Option<Seq<u8>>>),
    Long(Seq<i64>),
    /// IEEE 754 single-precision bit patterns.
    Float(Seq<u32>),
    /// IEEE 754 double-precision bit patterns.
    Double(Seq<u64>),
}

impl ColumnValues {
    /// Number of rows.
    pub open spec fn len(self) -> nat {
        match self {
            ColumnValues::Timestamp(v) => v.len(),
            ColumnValues::Text(v) => v.len(),
            ColumnValues::Long(v) => v.len(),
            ColumnValues::Float(v) => v.len(),
            ColumnValues::Double(v) => v.len(),
        }
    }
}

/// The values of the column of that name, given its descriptor and payload.
/// A multi-valued column is unsupported. The column named `__time` is read as
/// timestamps whatever its value type; any other column is read by its value
/// type, of which `Complex` is unsupported.
pub open spec fn column_values(name: Seq<char>, layout: DescriptorLayout, payload: Seq<u8>)
    -> Result<ColumnValues, ErrorKind> {
    if layout.has_multiple_values {
        Err(ErrorKind::UnsupportedColumnType)
    } else if name == "__time"@ {
        match long_column(payload) {
            Ok(v) => Ok(ColumnValues::Timestamp(v)),
            Err(kind) => Err(kind),
        }
    } else {
        match layout.value_type {
            ValueType::String => match string_column(payload) {
                Ok(v) => Ok(ColumnValues::Text(v)),
                Err(kind) => Err(kind),
            },
            ValueType::Long => match long_column(payload) {
                Ok(v) => Ok(ColumnValues::Long(v)),
                Err(kind) => Err(kind),
            },
            ValueType::Float => match float_column(payload) {
                Ok(v) => Ok(ColumnValues::Float(v)),
                Err(kind) => Err(kind),
            },
            ValueType::Double => match double_column(payload) {
                Ok(v) => Ok(ColumnValues::Double(v)),
                Err(kind) => Err(kind),
            },
            ValueType::Complex => Err(ErrorKind::UnsupportedColumnType),
        }
    }
}

/// The descriptor and the values of the column of that name, decoded from
/// the column's logical file.
pub open spec fn column_read(name: Seq<char>, data: Seq<u8>) -> Result<
    (DescriptorLayout, ColumnValues),
    ErrorKind,
> {
    match column_header(data) {
        Err(kind) => Err(kind),
        Ok((layout, payload)) => match column_values(name, layout, payload) {
            Ok(values) => Ok((layout, values)),
            Err(kind) => Err(kind),
        },
    }
}

/// One decoded column: a typed vector with one entry per row.
#[derive(Debug)]
pub enum ColumnData {
    /// Milliseconds since the Unix epoch.
    Timestamp(Vec<i64>),
    /// Strings resolved against the column's dictionary; `None` is a null slot.
    String(Vec<Option<String>>),
    Long(Vec<i64>),
    /// IEEE 754 single-precision bit patterns.
    Float(Vec<u32>),
    /// IEEE 754 double-precision bit patterns.
    Double(Vec<u64>),
}

impl ColumnData {
    /// Whether this column holds exactly the given values.
    pub open spec fn holds(&self, values: ColumnValues) -> bool {
        match (self, values) {
            (ColumnData::Timestamp(v), ColumnValues::Timestamp(s)) => v@ == s,
            (ColumnData::String(v), ColumnValues::Text(s)) => spells_optional(v@, s),
            (ColumnData::Long(v), ColumnValues::Long(s)) => v@ == s,
            (ColumnData::Float(v), ColumnValues::Float(s)) => v@ == s,
            (ColumnData::Double(v), ColumnValues::Double(s)) => v@ == s,
            _ => false,
        }
    }

    /// Number of rows.
    pub open spec fn spec_len(&self) -> nat {
        match self {
            ColumnData::Timestamp(v) => v@.len(),
            ColumnData::String(v) => v@.len(),
            ColumnData::Long(v) => v@.len(),
            ColumnData::Float(v) => v@.len(),
            ColumnData::Double(v) => v@.len(),
        }
    }

    /// Number of rows.
    pub fn len(&self) -> (n: usize)
        ensures
            n == self.spec_len(),
    {
        match self {
            ColumnData::Timestamp(v) => v.len(),
            ColumnData::String(v) => v.len(),
            ColumnData::Long(v) => v.len(),
            ColumnData::Float(v) => v.len(),
            ColumnData::Double(v) => v.len(),
        }
    }
}

/// Splits a column's logical file into its decoded descriptor and the
/// binary payload behind it.
pub fn parse_column_header(data: &[u8]) -> (r: Result<(ColumnDescriptor, &[u8]), DruidSegmentError>)
    ensures
        match column_header(data@) {
            Ok((layout, payload)) => r matches Ok((d, rest)) && d.matches_layout(layout) && rest@
                == payload,
            Err(kind) => r matches Err(e) && e.spec_kind() == kind,
        },
{
    let len = data.len();
    if len < 4 {
        return invalid_data("Column data too short for header length");
    }
    let json_len = read_i32_at(data, 0);
    if json_len < 0 || json_len as usize > len - 4 {
        return invalid_data("Column data too short for JSON header");
    }
    let end: usize = 4 + json_len as usize;
    match ColumnDescriptor::from_slice(slice_subrange(data, 4, end)) {
        Ok(descriptor) => Ok((descriptor, slice_subrange(data, end, len))),
        Err(e) => Err(e),
    }
}

/// Decodes the payload of the column of that name under its descriptor.
pub fn read_column_values(name: &str, descriptor: &ColumnDescriptor, payload: &[u8]) -> (r: Result<
    ColumnData,
    DruidSegmentError,
>)
    ensures
        forall|layout: DescriptorLayout| #[trigger]
            descriptor.matches_layout(layout) ==> match column_values(name@, layout, payload@) {
                Ok(values) => r matches Ok(c) && c.holds(values),
                Err(kind) => r matches Err(e) && e.spec_kind() == kind,
            },
{
    if descriptor.has_multiple_values {
        return Err(
            DruidSegmentError::UnsupportedColumnType("multi-value column".to_owned()),
        );
    }
    if same_text(name, "__time") {
        return match read_time_column(payload) {
            Ok(v) => Ok(ColumnData::Timestamp(v)),
            Err(e) => Err(e),
        };
    }
    match descriptor.value_type {
        ValueType::String => match read_string_column(payload) {
            Ok(v) => Ok(ColumnData::String(v)),
            Err(e) => Err(e),
        },
        ValueType::Long => match read_long_column(payload) {
            Ok(v) => Ok(ColumnData::Long(v)),
            Err(e) => Err(e),
        },
        ValueType::Float => match read_float_column(payload) {
            Ok(v) => Ok(ColumnData::Float(v)),
            Err(e) => Err(e),
        },
        ValueType::Double => match read_double_column(payload) {
            Ok(v) => Ok(ColumnData::Double(v)),
            Err(e) => Err(e),
        },
        ValueType::Complex => Err(DruidSegmentError::UnsupportedColumnType("Complex".to_owned())),
    }
}

/// Reads a column's logical file: its descriptor and its values.
pub fn read_column(name: &str, data: &[u8]) -> (r: Result<
    (ColumnDescriptor, ColumnData),
    DruidSegmentError,
>)
    ensures
        match column_read(name@, data@) {
            Ok((layout, values)) => r matches Ok((d, c)) && d.matches_layout(layout) && c.holds(
                values,
            ),
            Err(kind) => r matches Err(e) && e.spec_kind() == kind,
        },
{
    let (descriptor, payload) = match parse_column_header(data) {
        Ok(parts) => parts,
        Err(e) => {
            return Err(e);
        },
    };
    match read_column_values(name, &descriptor, payload) {
        Ok(values) => Ok((descriptor, values)),
        Err(e) => Err(e),
    }
}

} // verus!
