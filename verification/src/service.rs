//! The decisions of the two operations: what an upload is turned into and what
//! is answered once the store has done its part, and what a lookup answers.
//! The store itself is reached by the caller, who runs the statements that
//! this module shapes and reports back how they went.

use vstd::prelude::*;
use crate::codec::DecodeError;
use crate::models::{records_view, JsonError, Record, RecordView};
use crate::table::{csv_scan, decode, decode_table, table_error_text, TableError};
use vstd::string::*;

verus! {

/// The status of a reply that carries what was asked for.
pub const STATUS_OK: u16 = 200;

/// The status of a lookup that found no record.
pub const STATUS_NOT_FOUND: u16 = 404;

/// The status of an upload that failed.
pub const STATUS_FAILED: u16 = 500;

/// One parameter of a statement. A score travels as its decimal text.
#[derive(Debug, PartialEq)]
pub enum SqlValue {
    Text(String),
    Int(i32),
    Double(String),
}

/// The mathematical value of a [`SqlValue`].
pub enum SqlValueView {
    Text(Seq<char>),
    Int(i32),
    Double(Seq<char>),
}

impl View for SqlValue {
    type V = SqlValueView;

    open spec fn view(&self) -> SqlValueView {
        match self {
            SqlValue::Text(t) => SqlValueView::Text(t@),
            SqlValue::Int(n) => SqlValueView::Int(*n),
            SqlValue::Double(t) => SqlValueView::Double(t@),
        }
    }
}

/// A parameterised statement: its text and the values of `$1`, `$2`, ... in order.
#[derive(Debug, PartialEq)]
pub struct Statement {
    pub sql: String,
    pub params: Vec<SqlValue>,
}

/// The mathematical value of a [`Statement`].
pub struct StatementView {
    pub sql: Seq<char>,
    pub params: Seq<SqlValueView>,
}

/// The values of a list of parameters, in order.
pub open spec fn params_view(params: Seq<SqlValue>) -> Seq<SqlValueView> {
    Seq::new(params.len(), |i: int| params[i]@)
}

impl View for Statement {
    type V = StatementView;

    open spec fn view(&self) -> StatementView {
        StatementView { sql: self.sql@, params: params_view(self.params@) }
    }
}

/// The text of the insert for a record with the given optional columns set:
/// a column that is unset is not named at all.
pub open spec fn insert_sql(has_label: bool, has_score: bool) -> Seq<char> {
    if has_label && has_score {
        "INSERT INTO my_table (id_str, a_int, opt_str, opt_float) VALUES ($1, $2, $3, $4)"@
    } else if has_score {
        "INSERT INTO my_table (id_str, a_int, opt_float) VALUES ($1, $2, $3)"@
    } else if has_label {
        "INSERT INTO my_table (id_str, a_int, opt_str) VALUES ($1, $2, $3)"@
    } else {
        "INSERT INTO my_table (id_str, a_int) VALUES ($1, $2)"@
    }
}

/// The parameters of the insert for a record: the key, the integer, then each
/// optional column that is set, the text before the score.
pub open spec fn insert_params(r: RecordView) -> Seq<SqlValueView> {
    seq![SqlValueView::Text(r.id_str), SqlValueView::Int(r.a_int)] + (match r.opt_str {
        Some(t) => seq![SqlValueView::Text(t)],
        None => Seq::empty(),
    }) + (match r.opt_float {
        Some(t) => seq![SqlValueView::Double(t)],
        None => Seq::empty(),
    })
}

/// The insert for a record.
pub open spec fn insert_of(r: RecordView) -> StatementView {
    StatementView {
        sql: insert_sql(r.opt_str is Some, r.opt_float is Some),
        params: insert_params(r),
    }
}

/// The text of the lookup by key.
pub open spec fn select_sql() -> Seq<char> {
    "SELECT id_str, a_int, opt_str, opt_float FROM my_table where id_str = $1"@
}

/// Shapes the insert for one record, over the columns that the record sets.
pub fn insert_statement(record: &Record) -> (r: Statement)
    ensures
        r@ == insert_of(record@),
{
    let mut params: Vec<SqlValue> = Vec::new();
    params.push(SqlValue::Text(record.id_str.clone()));
    params.push(SqlValue::Int(record.a_int));
    let has_label: bool = match &record.opt_str {
        Some(t) => {
            params.push(SqlValue::Text(t.clone()));
            true
        },
        None => false,
    };
    let has_score: bool = match &record.opt_float {
        Some(t) => {
            params.push(SqlValue::Double(t.clone()));
            true
        },
        None => false,
    };
    let sql: &str = if has_label && has_score {
        "INSERT INTO my_table (id_str, a_int, opt_str, opt_float) VALUES ($1, $2, $3, $4)"
    } else if has_score {
        "INSERT INTO my_table (id_str, a_int, opt_float) VALUES ($1, $2, $3)"
    } else if has_label {
        "INSERT INTO my_table (id_str, a_int, opt_str) VALUES ($1, $2, $3)"
    } else {
        "INSERT INTO my_table (id_str, a_int) VALUES ($1, $2)"
    };
    assert(params_view(params@) =~= insert_params(record@));
    Statement { sql: String::from_str(sql), params }
}

/// Shapes the lookup of the record with the given key.
pub fn select_statement(key: &str) -> (r: Statement)
    ensures
        r@.sql == select_sql(),
        r@.params == seq![SqlValueView::Text(key@)],
{
    let mut params: Vec<SqlValue> = Vec::new();
    params.push(SqlValue::Text(String::from_str(key)));
    assert(params_view(params@) =~= seq![SqlValueView::Text(key@)]);
    Statement {
        sql: String::from_str(
            "SELECT id_str, a_int, opt_str, opt_float FROM my_table where id_str = $1",
        ),
        params,
    }
}

/// The values of a list of statements, in order.
pub open spec fn statements_view(statements: Seq<Statement>) -> Seq<StatementView> {
    Seq::new(statements.len(), |i: int| statements[i]@)
}

/// The inserts for a list of records: one per record, in order.
pub open spec fn inserts_of(records: Seq<RecordView>) -> Seq<StatementView> {
    Seq::new(records.len(), |i: int| insert_of(records[i]))
}

/// Shapes one insert per record, in the records' order.
pub fn plan_inserts(records: &Vec<Record>) -> (r: Vec<Statement>)
    ensures
        statements_view(r@) == inserts_of(records_view(records@)),
{
    let mut out: Vec<Statement> = Vec::new();
    let mut i: usize = 0;
    while i < records.len()
        invariant
            i <= records.len(),
            out.len() == i,
            forall|j: int| 0 <= j < i ==> (#[trigger] out@[j])@ == insert_of(records@[j]@),
        decreases records.len() - i,
    {
        out.push(insert_statement(&records[i]));
        i += 1;
    }
    assert(statements_view(out@) =~= inserts_of(records_view(records@)));
    out
}

/// What a reply carries.
#[derive(Debug, PartialEq)]
pub enum Body {
    /// A list of records.
    Records(Vec<Record>),
    /// A failure message.
    Failure(JsonError),
}

/// The mathematical value of a [`Body`].
pub enum BodyView {
    Records(Seq<RecordView>),
    Failure(Seq<char>),
}

/// An answer: its status and what it carries.
#[derive(Debug, PartialEq)]
pub struct Reply {
    pub status: u16,
    pub body: Body,
}

/// The mathematical value of a [`Reply`].
pub struct ReplyView {
    pub status: u16,
    pub body: BodyView,
}

impl View for Reply {
    type V = ReplyView;

    open spec fn view(&self) -> ReplyView {
        ReplyView {
            status: self.status,
            body: match self.body {
                Body::Records(records) => BodyView::Records(records_view(records@)),
                Body::Failure(error) => BodyView::Failure(error.err@),
            },
        }
    }
}

/// What an upload comes to once its payload has been read.
#[derive(Debug, PartialEq)]
pub enum Decoded {
    /// The payload is not a list of records: this is the answer, and nothing
    /// is to be stored.
    Rejected(Reply),
    /// The payload's records, in order; their scores are still to be screened.
    Records(Vec<Record>),
}

/// What an upload comes to before the store is touched.
#[derive(Debug, PartialEq)]
pub enum Ingest {
    /// A score does not read as a number: this is the answer, and nothing is
    /// to be stored.
    Rejected(Reply),
    /// The payload's records, and the insert to run for each, in order.
    Accepted { records: Vec<Record>, statements: Vec<Statement> },
}

/// The tag that opens the message of a payload that could not be decoded.
pub open spec fn decode_failure_tag() -> Seq<char> {
    "type=csv_deserialization_error error="@
}

/// The tag that opens the message of an insert that the store refused.
pub open spec fn insert_failure_tag() -> Seq<char> {
    "type=postgres_error error="@
}

/// The failure reply with the given tag and detail.
pub open spec fn failure_reply(tag: Seq<char>, detail: Seq<char>) -> ReplyView {
    ReplyView { status: STATUS_FAILED, body: BodyView::Failure(tag + detail) }
}

/// A failure reply whose message is `tag` followed by `detail`.
fn failure(tag: &str, detail: &str) -> (r: Reply)
    ensures
        r@ == failure_reply(tag@, detail@),
{
    let mut err = String::from_str(tag);
    err.append(detail);
    Reply { status: STATUS_FAILED, body: Body::Failure(JsonError { err }) }
}

/// Decides what a decoded payload comes to. All or nothing: where decoding
/// failed the upload is rejected with the failure as its message; where it
/// succeeded the records go on, all of them.
pub fn settle_decode(decoded: Result<Vec<Record>, TableError>) -> (r: Decoded)
    ensures
        match decoded {
            Ok(list) => r == Decoded::Records(list),
            Err(e) => r matches Decoded::Rejected(reply) && reply@ == failure_reply(
                decode_failure_tag(),
                table_error_text(e),
            ),
        },
{
    match decoded {
        Ok(records) => Decoded::Records(records),
        Err(e) => {
            let detail = e.describe();
            Decoded::Rejected(failure("type=csv_deserialization_error error=", detail.as_str()))
        },
    }
}

/// Reads an uploaded payload into its records, or into the rejection to
/// answer with. The payload is decoded whole before anything else happens: if
/// any row fails, the upload is rejected and no record of any row goes on;
/// otherwise there is one record per row, in row order.
pub fn transform_csv(request_body: &[u8]) -> (r: Decoded)
    ensures
        match r {
            Decoded::Records(records) => csv_scan(request_body@).1 && decode_table(
                csv_scan(request_body@).0,
            ) == Ok::<Seq<RecordView>, (int, DecodeError)>(records_view(records@))
                && forall|i: int| 0 <= i < records.len() ==> (#[trigger] records[i]).valid(),
            Decoded::Rejected(reply) => reply@.status == STATUS_FAILED && (reply@.body matches BodyView::Failure(
                message,
            ) && decode_failure_tag().is_prefix_of(message)) && match decode_table(
                csv_scan(request_body@).0,
            ) {
                Ok(_) => !csv_scan(request_body@).1,
                Err((row, error)) => 0 <= row <= usize::MAX && reply@ == failure_reply(
                    decode_failure_tag(),
                    table_error_text(TableError::Row { row: row as usize, error }),
                ),
            },
        },
{
    let decoded = decode(request_body);
    proof {
        if decoded is Err {
            let message = decode_failure_tag() + table_error_text(decoded->Err_0);
            assert(message.subrange(0, decode_failure_tag().len() as int) =~= decode_failure_tag());
        }
    }
    settle_decode(decoded)
}

/// The answer to an upload once its inserts have run: the records echoed
/// back where every insert succeeded, else a failure whose message carries
/// the store's report. No record is named as the one that failed.
pub fn ingest_reply(records: Vec<Record>, outcome: Result<(), String>) -> (r: Reply)
    ensures
        match outcome {
            Ok(_) => r.status == STATUS_OK && r.body == Body::Records(records),
            Err(detail) => r@ == failure_reply(insert_failure_tag(), detail@),
        },
{
    match outcome {
        Ok(_) => Reply { status: STATUS_OK, body: Body::Records(records) },
        Err(detail) => failure("type=postgres_error error=", detail.as_str()),
    }
}

/// What a lookup answers to what the store returned: the rows as they are
/// where there is exactly one, else not-found with an empty list.
pub open spec fn lookup_reply(outcome: Result<Seq<RecordView>, Seq<char>>) -> ReplyView {
    match outcome {
        Ok(rows) => if rows.len() == 1 {
            ReplyView { status: STATUS_OK, body: BodyView::Records(rows) }
        } else {
            ReplyView { status: STATUS_NOT_FOUND, body: BodyView::Records(Seq::empty()) }
        },
        Err(_) => ReplyView { status: STATUS_NOT_FOUND, body: BodyView::Records(Seq::empty()) },
    }
}

/// The answer to a lookup, from the rows that the store returned for the key
/// or from its report of a failure: the record alone where there is exactly
/// one row; not-found with an empty list where there is none, more than one,
/// or the query failed. A failed query and a missing row are not told apart.
pub fn query_csv(outcome: Result<Vec<Record>, String>) -> (r: Reply)
    ensures
        r@ == lookup_reply(
            match outcome {
                Ok(rows) => Ok(records_view(rows@)),
                Err(detail) => Err(detail@),
            },
        ),
{
    match outcome {
        Ok(rows) => {
            if rows.len() == 1 {
                Reply { status: STATUS_OK, body: Body::Records(rows) }
            } else {
                let none: Vec<Record> = Vec::new();
                assert(records_view(none@) =~= Seq::<RecordView>::empty());
                Reply { status: STATUS_NOT_FOUND, body: Body::Records(none) }
            }
        },
        Err(_) => {
            let none: Vec<Record> = Vec::new();
            assert(records_view(none@) =~= Seq::<RecordView>::empty());
            Reply { status: STATUS_NOT_FOUND, body: Body::Records(none) }
        },
    }
}

/// Whether record `i` passes the score check: it sets no score, or `readable`
/// has an entry for it that says its score reads as a number.
pub open spec fn score_passes(r: RecordView, readable: Seq<bool>, i: int) -> bool {
    r.opt_float is None || (0 <= i < readable.len() && readable[i])
}

/// The first record at or after position `k` that fails the score check.
pub open spec fn first_bad_score(records: Seq<RecordView>, readable: Seq<bool>, k: int) -> Option<
    int,
>
    decreases records.len() - k,
{
    if k < 0 || k >= records.len() {
        None
    } else if !score_passes(records[k], readable, k) {
        Some(k)
    } else {
        first_bad_score(records, readable, k + 1)
    }
}

/// What [`first_bad_score`] finds: the record fails the check and none from
/// `k` up to it does; where it finds none, every record from `k` on passes.
pub proof fn lemma_first_bad_score(records: Seq<RecordView>, readable: Seq<bool>, k: int)
    requires
        0 <= k,
    ensures
        match first_bad_score(records, readable, k) {
            Some(i) => k <= i < records.len() && !score_passes(records[i], readable, i)
                && forall|j: int| k <= j < i ==> score_passes(#[trigger] records[j], readable, j),
            None => forall|j: int|
                k <= j < records.len() ==> score_passes(#[trigger] records[j], readable, j),
        },
    decreases records.len() - k,
{
    if k < records.len() && score_passes(records[k], readable, k) {
        lemma_first_bad_score(records, readable, k + 1);
    }
}

/// Screens the scores of an upload's records and shapes its inserts. Whether
/// a text reads as a number is for the caller to find out, record by record:
/// `readable[i]` says so of record `i`. The first record whose score is set
/// and not readable rejects the whole upload, with a message that names the
/// record's row (the record at position `i` stands in row `i + 1`), and no
/// insert is shaped; where there is none, every record gets its insert.
pub fn screen_scores(records: Vec<Record>, readable: &Vec<bool>) -> (r: Ingest)
    ensures
        match first_bad_score(records_view(records@), readable@, 0) {
            None => r matches Ingest::Accepted { records: kept, statements } && kept == records
                && statements_view(statements@) == inserts_of(records_view(records@)),
            Some(i) => r matches Ingest::Rejected(reply) && 0 <= i < records.len() && reply@
                == failure_reply(
                decode_failure_tag(),
                table_error_text(
                    TableError::Row { row: (i + 1) as usize, error: DecodeError::InvalidScore },
                ),
            ),
        },
{
    let mut i: usize = 0;
    while i < records.len()
        invariant
            i <= records.len(),
            first_bad_score(records_view(records@), readable@, 0) == first_bad_score(
                records_view(records@),
                readable@,
                i as int,
            ),
        decreases records.len() - i,
    {
        let passes: bool = records[i].opt_float.is_none() || (i < readable.len() && readable[i]);
        assert(passes == score_passes(records_view(records@)[i as int], readable@, i as int));
        if !passes {
            let e = TableError::Row { row: i + 1, error: DecodeError::InvalidScore };
            let detail = e.describe();
            return Ingest::Rejected(
                failure("type=csv_deserialization_error error=", detail.as_str()),
            );
        }
        i += 1;
    }
    let statements = plan_inserts(&records);
    Ingest::Accepted { records, statements }
}

} // verus!
