//! The record that the service stores and the error body it answers with.

use vstd::prelude::*;

verus! {

/// One row of the table: a unique key, a required integer and two optional
/// columns. The score is held as its decimal text, which this library never
/// interprets as a number.
#[derive(Debug, Clone, PartialEq)]
pub struct Record {
    pub id_str: String,
    pub a_int: i32,
    pub opt_str: Option<String>,
    pub opt_float: Option<String>,
}

/// The mathematical value of a [`Record`].
pub struct RecordView {
    pub id_str: Seq<char>,
    pub a_int: i32,
    pub opt_str: Option<Seq<char>>,
    pub opt_float: Option<Seq<char>>,
}

/// The characters of an optional text.
pub open spec fn opt_text(t: Option<String>) -> Option<Seq<char>> {
    match t {
        Some(s) => Some(s@),
        None => None,
    }
}

impl View for Record {
    type V = RecordView;

    open spec fn view(&self) -> RecordView {
        RecordView {
            id_str: self.id_str@,
            a_int: self.a_int,
            opt_str: opt_text(self.opt_str),
            opt_float: opt_text(self.opt_float),
        }
    }
}

impl RecordView {
    /// A record is valid when its key is not empty and each optional column
    /// that is set holds some text: an unset column is `None`, never `Some` of
    /// the empty text.
    pub open spec fn valid(self) -> bool {
        &&& self.id_str.len() > 0
        &&& self.opt_str matches Some(t) ==> t.len() > 0
        &&& self.opt_float matches Some(t) ==> t.len() > 0
    }
}

/// The values of a list of records, in order.
pub open spec fn records_view(records: Seq<Record>) -> Seq<RecordView> {
    Seq::new(records.len(), |i: int| records[i]@)
}

/// A copy of an optional text.
pub fn copy_opt_text(t: &Option<String>) -> (r: Option<String>)
    ensures
        opt_text(r) == opt_text(*t),
{
    match t {
        Some(s) => Some(s.clone()),
        None => None,
    }
}

impl Record {
    /// Whether this record's key is set and no optional column holds empty text.
    pub open spec fn valid(&self) -> bool {
        self@.valid()
    }

    /// A copy of this record.
    pub fn duplicate(&self) -> (r: Record)
        ensures
            r@ == self@,
    {
        Record {
            id_str: self.id_str.clone(),
            a_int: self.a_int,
            opt_str: copy_opt_text(&self.opt_str),
            opt_float: copy_opt_text(&self.opt_float),
        }
    }
}

/// The body of a failure reply: a free-text message.
#[derive(Debug, PartialEq)]
pub struct JsonError {
    pub err: String,
}

} // verus!
