//! Conversion between the four raw text cells of a row and a typed record.

use vstd::prelude::*;
use crate::models::{opt_text, Record, RecordView};
use crate::number::{format_i32, i32_of_text, int_text, lemma_i32_text_round_trip, parse_i32};

verus! {

/// The raw text found under each of the four column names; `None` where the
/// table has no such column.
#[derive(Debug, PartialEq)]
pub struct Fields {
    pub id_str: Option<String>,
    pub a_int: Option<String>,
    pub opt_str: Option<String>,
    pub opt_float: Option<String>,
}

/// The mathematical value of [`Fields`].
pub struct FieldsView {
    pub id_str: Option<Seq<char>>,
    pub a_int: Option<Seq<char>>,
    pub opt_str: Option<Seq<char>>,
    pub opt_float: Option<Seq<char>>,
}

impl View for Fields {
    type V = FieldsView;

    open spec fn view(&self) -> FieldsView {
        FieldsView {
            id_str: opt_text(self.id_str),
            a_int: opt_text(self.a_int),
            opt_str: opt_text(self.opt_str),
            opt_float: opt_text(self.opt_float),
        }
    }
}

/// Why a row is not a record.
#[derive(Debug, Clone, Copy, PartialEq, Eq, Structural)]
pub enum DecodeError {
    /// The table has no key column.
    MissingId,
    /// The key cell is empty.
    EmptyId,
    /// The table has no integer column.
    MissingCount,
    /// The integer cell does not write a 32-bit signed integer.
    InvalidCount,
    /// The score cell is set and is not a number.
    InvalidScore,
    /// The header names one of the four columns twice.
    DuplicateColumn,
}

/// An optional column's value: unset where the cell is missing or empty.
pub open spec fn optional_cell(cell: Option<Seq<char>>) -> Option<Seq<char>> {
    match cell {
        Some(t) => if t.len() == 0 {
            None
        } else {
            Some(t)
        },
        None => None,
    }
}

/// The record that four raw cells hold, or the reason they hold none.
pub open spec fn decode_fields(f: FieldsView) -> Result<RecordView, DecodeError> {
    match f.id_str {
        None => Err(DecodeError::MissingId),
        Some(id) => if id.len() == 0 {
            Err(DecodeError::EmptyId)
        } else {
            match f.a_int {
                None => Err(DecodeError::MissingCount),
                Some(t) => match i32_of_text(t) {
                    None => Err(DecodeError::InvalidCount),
                    Some(n) => Ok(
                        RecordView {
                            id_str: id,
                            a_int: n,
                            opt_str: optional_cell(f.opt_str),
                            opt_float: optional_cell(f.opt_float),
                        },
                    ),
                },
            }
        },
    }
}

/// The four cells that write a record: every column is there, an unset
/// optional column as the empty text, the integer as its exact decimal text.
pub open spec fn encode_fields(r: RecordView) -> FieldsView {
    FieldsView {
        id_str: Some(r.id_str),
        a_int: Some(int_text(r.a_int as int)),
        opt_str: Some(
            match r.opt_str {
                Some(t) => t,
                None => Seq::<char>::empty(),
            },
        ),
        opt_float: Some(
            match r.opt_float {
                Some(t) => t,
                None => Seq::<char>::empty(),
            },
        ),
    }
}

/// Decoding the cells that a valid record was encoded to gives the record
/// back, with each optional column set or unset as it was.
pub proof fn lemma_decode_encode_round_trip(r: RecordView)
    requires
        r.valid(),
    ensures
        decode_fields(encode_fields(r)) == Ok::<RecordView, DecodeError>(r),
{
    lemma_i32_text_round_trip(r.a_int);
    let f = encode_fields(r);
    assert(optional_cell(f.opt_str) == r.opt_str);
    assert(optional_cell(f.opt_float) == r.opt_float);
}

/// Every record that decoding yields is valid.
pub proof fn lemma_decoded_is_valid(f: FieldsView)
    ensures
        decode_fields(f) matches Ok(r) ==> r.valid(),
{
}

/// An optional column's value from its cell.
fn decode_optional(cell: Option<String>) -> (r: Option<String>)
    ensures
        opt_text(r) == optional_cell(opt_text(cell)),
{
    match cell {
        Some(t) => {
            if t.as_str().is_empty() {
                None
            } else {
                Some(t)
            }
        },
        None => None,
    }
}

/// The text of an optional column: empty where it is unset.
fn encode_optional(value: &Option<String>) -> (r: String)
    ensures
        r@ == match opt_text(*value) {
            Some(t) => t,
            None => Seq::<char>::empty(),
        },
{
    match value {
        Some(t) => t.clone(),
        None => String::new(),
    }
}

/// Decodes the four raw cells of a row into a record.
pub fn decode_one(fields: Fields) -> (r: Result<Record, DecodeError>)
    ensures
        match r {
            Ok(record) => decode_fields(fields@) == Ok::<RecordView, DecodeError>(record@)
                && record.valid(),
            Err(e) => decode_fields(fields@) == Err::<RecordView, DecodeError>(e),
        },
{
    let Fields { id_str, a_int, opt_str, opt_float } = fields;
    let id: String = match id_str {
        Some(id) => id,
        None => {
            return Err(DecodeError::MissingId);
        },
    };
    if id.as_str().is_empty() {
        return Err(DecodeError::EmptyId);
    }
    let count_text: String = match a_int {
        Some(t) => t,
        None => {
            return Err(DecodeError::MissingCount);
        },
    };
    let count: i32 = match parse_i32(count_text.as_str()) {
        Some(n) => n,
        None => {
            return Err(DecodeError::InvalidCount);
        },
    };
    Ok(
        Record {
            id_str: id,
            a_int: count,
            opt_str: decode_optional(opt_str),
            opt_float: decode_optional(opt_float),
        },
    )
}

/// Encodes a record as its four cells.
pub fn encode_one(record: &Record) -> (r: Fields)
    ensures
        r@ == encode_fields(record@),
{
    Fields {
        id_str: Some(record.id_str.clone()),
        a_int: Some(format_i32(record.a_int)),
        opt_str: Some(encode_optional(&record.opt_str)),
        opt_float: Some(encode_optional(&record.opt_float)),
    }
}

} // verus!
