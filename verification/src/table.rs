//! The delimited-text table: a header row of column names, then one row per
//! record. Splitting bytes into rows and joining rows into bytes is the work
//! of the `csv` crate; which columns a row's cells belong to, and what record
//! they hold, is decided here.

use vstd::prelude::*;
use crate::codec::{decode_fields, decode_one, encode_fields, encode_one, DecodeError, Fields, FieldsView};
use crate::models::{records_view, Record, RecordView};
use crate::number::push_nat;
use vstd::string::*;

verus! {

/// `csv::Error`, the error of the `csv` reader and writer, carried as it is.
#[verifier::external_type_specification]
#[verifier::external_body]
pub struct ExCsvError(csv::Error);

/// What the `csv` reader makes of a byte buffer: the rows it yields, in
/// order, up to the end of the input or to the first row it reports an error
/// for, each row as the text of its cells; and whether it reached the end
/// without reporting an error.
pub uninterp spec fn csv_scan(bytes: Seq<u8>) -> (Seq<Seq<Seq<char>>>, bool);

/// The bytes that the `csv` writer produces for a list of rows, or `None`
/// where it reports an error.
pub uninterp spec fn csv_text(rows: Seq<Seq<Seq<char>>>) -> Option<Seq<u8>>;

/// The cells of a row as texts.
pub open spec fn row_view(row: Seq<String>) -> Seq<Seq<char>> {
    Seq::new(row.len(), |i: int| row[i]@)
}

/// The rows of a table as texts.
pub open spec fn table_view(rows: Seq<Vec<String>>) -> Seq<Seq<Seq<char>>> {
    Seq::new(rows.len(), |i: int| row_view(rows[i]@))
}

/// Runs `csv::Reader` (comma-separated, standard quoting, every row returned
/// as data, rows of unequal length refused) over `bytes` with
/// `StringRecordsIntoIter::next`, until it returns `None` or an error. The
/// contract gives the outcome the name [`csv_scan`]: the rows read before
/// that point, and the error if there was one. Nothing else is claimed.
#[verifier::external_body]
fn scan_rows(bytes: &[u8]) -> (r: (Vec<Vec<String>>, Option<csv::Error>))
    ensures
        table_view(r.0@) == csv_scan(bytes@).0,
        r.1.is_none() == csv_scan(bytes@).1,
{
    let mut rows: Vec<Vec<String>> = Vec::new();
    let reader = csv::ReaderBuilder::new().has_headers(false).from_reader(bytes);
    for item in reader.into_records() {
        match item {
            Ok(record) => rows.push(record.iter().map(String::from).collect()),
            Err(error) => return (rows, Some(error)),
        }
    }
    (rows, None)
}

/// Writes `rows` with `csv::Writer::write_record` into a byte vector and
/// takes the vector back with `into_inner`. The contract gives the outcome the
/// name [`csv_text`]; the writer's own error (rows of unequal length) comes
/// back as it is.
#[verifier::external_body]
fn write_rows(rows: &Vec<Vec<String>>) -> (r: Result<Vec<u8>, csv::Error>)
    ensures
        match r {
            Ok(bytes) => csv_text(table_view(rows@)) == Some(bytes@),
            Err(_) => csv_text(table_view(rows@)).is_none(),
        },
{
    let mut writer = csv::Writer::from_writer(Vec::new());
    for row in rows.iter() {
        writer.write_record(row)?;
    }
    writer.into_inner().map_err(|e| csv::Error::from(e.into_error()))
}

/// The `Debug` rendering of a `csv::Error`, through `format!`. Nothing is
/// claimed of the text.
#[verifier::external_body]
fn csv_error_text(error: &csv::Error) -> (r: String) {
    format!("{:?}", error)
}

/// The name of the key column.
pub open spec fn id_column() -> Seq<char> {
    "id_str"@
}

/// The name of the integer column.
pub open spec fn count_column() -> Seq<char> {
    "a_int"@
}

/// The name of the optional text column.
pub open spec fn label_column() -> Seq<char> {
    "opt_str"@
}

/// The name of the optional score column.
pub open spec fn score_column() -> Seq<char> {
    "opt_float"@
}

/// The first position at or after `k` where `header` holds `name`.
pub open spec fn find_from(header: Seq<Seq<char>>, name: Seq<char>, k: int) -> Option<int>
    decreases header.len() - k,
{
    if k < 0 || k >= header.len() {
        None
    } else if header[k] == name {
        Some(k)
    } else {
        find_from(header, name, k + 1)
    }
}

/// What [`find_from`] finds: the place holds the name and no place from `k`
/// up to it does; where it finds none, no place from `k` on holds the name.
pub proof fn lemma_find_from(header: Seq<Seq<char>>, name: Seq<char>, k: int)
    requires
        0 <= k,
    ensures
        match find_from(header, name, k) {
            Some(i) => k <= i < header.len() && header[i] == name && forall|j: int|
                k <= j < i ==> #[trigger] header[j] != name,
            None => forall|j: int| k <= j < header.len() ==> #[trigger] header[j] != name,
        },
    decreases header.len() - k,
{
    if k < header.len() && header[k] != name {
        lemma_find_from(header, name, k + 1);
    }
}

/// The cell of `row` under the first column called `name`, if the header has
/// such a column and the row is long enough to reach it.
pub open spec fn cell(header: Seq<Seq<char>>, row: Seq<Seq<char>>, name: Seq<char>) -> Option<
    Seq<char>,
> {
    match find_from(header, name, 0) {
        Some(i) => if i < row.len() {
            Some(row[i])
        } else {
            None
        },
        None => None,
    }
}

/// The four raw cells of `row`, found by the column names in `header`.
pub open spec fn row_fields(header: Seq<Seq<char>>, row: Seq<Seq<char>>) -> FieldsView {
    FieldsView {
        id_str: cell(header, row, id_column()),
        a_int: cell(header, row, count_column()),
        opt_str: cell(header, row, label_column()),
        opt_float: cell(header, row, score_column()),
    }
}

/// Whether `header` holds `name` at two places or more.
pub open spec fn named_twice(header: Seq<Seq<char>>, name: Seq<char>) -> bool {
    match find_from(header, name, 0) {
        Some(i) => find_from(header, name, i + 1) is Some,
        None => false,
    }
}

/// Whether `header` names one of the four columns twice.
pub open spec fn ambiguous(header: Seq<Seq<char>>) -> bool {
    named_twice(header, id_column()) || named_twice(header, count_column()) || named_twice(
        header,
        label_column(),
    ) || named_twice(header, score_column())
}

/// The record in row `i` of `table`, whose row 0 is the header: none under a
/// header that names a column twice, else what the row's four cells hold.
pub open spec fn row_record(table: Seq<Seq<Seq<char>>>, i: int) -> Result<RecordView, DecodeError> {
    if ambiguous(table[0]) {
        Err(DecodeError::DuplicateColumn)
    } else {
        decode_fields(row_fields(table[0], table[i]))
    }
}

/// The records of the data rows before row `n`, in order, or the first row
/// among them that holds no record, with the reason.
pub open spec fn decode_prefix(table: Seq<Seq<Seq<char>>>, n: int) -> Result<
    Seq<RecordView>,
    (int, DecodeError),
>
    decreases n,
{
    if n <= 1 {
        Ok(Seq::empty())
    } else {
        match decode_prefix(table, n - 1) {
            Err(e) => Err(e),
            Ok(records) => match row_record(table, n - 1) {
                Ok(r) => Ok(records.push(r)),
                Err(e) => Err((n - 1, e)),
            },
        }
    }
}

/// The records of a table, one per data row in row order, or the first data
/// row that holds no record, with the reason. A table without rows holds no
/// records.
pub open spec fn decode_table(table: Seq<Seq<Seq<char>>>) -> Result<
    Seq<RecordView>,
    (int, DecodeError),
> {
    decode_prefix(table, table.len() as int)
}

/// The header row.
pub open spec fn header_row() -> Seq<Seq<char>> {
    seq![id_column(), count_column(), label_column(), score_column()]
}

/// The row that writes a record: its four cells in column order.
pub open spec fn record_row(r: RecordView) -> Seq<Seq<char>> {
    let f = encode_fields(r);
    seq![f.id_str.unwrap(), f.a_int.unwrap(), f.opt_str.unwrap(), f.opt_float.unwrap()]
}

/// The table that writes a list of records: the header row, then one row per
/// record in order.
pub open spec fn encode_table(records: Seq<RecordView>) -> Seq<Seq<Seq<char>>> {
    Seq::new(
        records.len() + 1,
        |i: int|
            if i == 0 {
                header_row()
            } else {
                record_row(records[i - 1])
            },
    )
}

/// Why a payload is not a list of records.
#[derive(Debug, PartialEq)]
pub enum TableError {
    /// The reader could not split the payload into rows; `detail` is its report.
    Malformed { detail: String },
    /// Row `row` of the table (the header is row 0) holds no record.
    Row { row: usize, error: DecodeError },
}

/// Once a row has failed, decoding more rows reports the same failure.
pub proof fn lemma_failure_stays(table: Seq<Seq<Seq<char>>>, k: int, n: int)
    requires
        k <= n,
        decode_prefix(table, k) is Err,
    ensures
        decode_prefix(table, n) == decode_prefix(table, k),
    decreases n - k,
{
    if k < n {
        lemma_failure_stays(table, k, n - 1);
    }
}

/// What decoding the rows before row `n` comes to, said row by row: on
/// success there is one record per data row, each the record of its row; on
/// failure the row reported is the first that holds no record.
pub proof fn lemma_decode_prefix_rows(table: Seq<Seq<Seq<char>>>, n: int)
    ensures
        match decode_prefix(table, n) {
            Ok(records) => records.len() == (if n <= 1 {
                0
            } else {
                n - 1
            }) && forall|i: int|
                0 <= i < records.len() ==> row_record(table, i + 1) == Ok::<
                    RecordView,
                    DecodeError,
                >(#[trigger] records[i]),
            Err((k, e)) => 1 <= k < n && row_record(table, k) == Err::<RecordView, DecodeError>(e)
                && forall|j: int| 1 <= j < k ==> (#[trigger] row_record(table, j)) is Ok,
        },
    decreases n,
{
    if n > 1 {
        lemma_decode_prefix_rows(table, n - 1);
        match decode_prefix(table, n - 1) {
            Ok(records) => {
                assert forall|j: int| 1 <= j < n - 1 implies (#[trigger] row_record(
                    table,
                    j,
                )) is Ok by {
                    assert(row_record(table, (j - 1) + 1) == Ok::<RecordView, DecodeError>(
                        records[j - 1],
                    ));
                }
            },
            Err(_) => {},
        }
    }
}

/// All or nothing: a table decodes to records exactly when every data row
/// holds one, and then to one record per data row, in row order; otherwise
/// the first row that holds none is reported and no record is given.
pub proof fn lemma_decode_table_rows(table: Seq<Seq<Seq<char>>>)
    ensures
        match decode_table(table) {
            Ok(records) => records.len() == (if table.len() == 0 {
                0
            } else {
                table.len() - 1
            }) && forall|i: int|
                0 <= i < records.len() ==> row_record(table, i + 1) == Ok::<
                    RecordView,
                    DecodeError,
                >(#[trigger] records[i]),
            Err((k, e)) => 1 <= k < table.len() && row_record(table, k) == Err::<
                RecordView,
                DecodeError,
            >(e) && forall|j: int| 1 <= j < k ==> (#[trigger] row_record(table, j)) is Ok,
        },
{
    lemma_decode_prefix_rows(table, table.len() as int);
}

/// The position of the first column of `header` at or after `from` called `name`.
fn find_column(header: &Vec<String>, name: &str, from: usize) -> (r: Option<usize>)
    ensures
        match r {
            Some(i) => find_from(row_view(header@), name@, from as int) == Some(i as int) && i
                < header.len(),
            None => find_from(row_view(header@), name@, from as int).is_none(),
        },
{
    let wanted: String = String::from_str(name);
    let mut k: usize = from;
    while k < header.len()
        invariant
            from <= k,
            wanted@ == name@,
            find_from(row_view(header@), name@, from as int) == find_from(
                row_view(header@),
                name@,
                k as int,
            ),
        decreases header.len() - k,
    {
        if header[k] == wanted {
            return Some(k);
        }
        k += 1;
    }
    None
}

/// Whether `header` holds `name` again after its first place `first`.
fn repeated(header: &Vec<String>, name: &str, first: Option<usize>) -> (r: bool)
    requires
        match first {
            Some(i) => find_from(row_view(header@), name@, 0) == Some(i as int) && i < header.len(),
            None => find_from(row_view(header@), name@, 0).is_none(),
        },
    ensures
        r == named_twice(row_view(header@), name@),
{
    match first {
        Some(i) => find_column(header, name, i + 1).is_some(),
        None => false,
    }
}

/// A copy of the cell of `row` at `column`, if there is one.
fn cell_at(row: &Vec<String>, column: Option<usize>) -> (r: Option<String>)
    ensures
        crate::models::opt_text(r) == match column {
            Some(i) => if i < row.len() {
                Some(row@[i as int]@)
            } else {
                None
            },
            None => None,
        },
{
    match column {
        Some(i) => {
            if i < row.len() {
                Some(row[i].clone())
            } else {
                None
            }
        },
        None => None,
    }
}

/// Decodes the rows of a table, whose first row is the header, into records:
/// one record per data row, in row order. The first row that holds no record
/// ends the work: nothing is returned but that row's number and the reason.
pub fn decode_rows(rows: &Vec<Vec<String>>) -> (r: Result<Vec<Record>, TableError>)
    ensures
        match r {
            Ok(records) => decode_table(table_view(rows@)) == Ok::<
                Seq<RecordView>,
                (int, DecodeError),
            >(records_view(records@)) && forall|i: int|
                0 <= i < records.len() ==> (#[trigger] records[i]).valid(),
            Err(TableError::Row { row, error }) => decode_table(table_view(rows@)) == Err::<
                Seq<RecordView>,
                (int, DecodeError),
            >((row as int, error)),
            Err(TableError::Malformed { .. }) => false,
        },
{
    let mut out: Vec<Record> = Vec::new();
    let n: usize = rows.len();
    if n == 0 {
        assert(records_view(out@) =~= Seq::<RecordView>::empty());
        return Ok(out);
    }
    let ghost table = table_view(rows@);
    let header: &Vec<String> = &rows[0];
    let id_at: Option<usize> = find_column(header, "id_str", 0);
    let count_at: Option<usize> = find_column(header, "a_int", 0);
    let label_at: Option<usize> = find_column(header, "opt_str", 0);
    let score_at: Option<usize> = find_column(header, "opt_float", 0);
    assert(records_view(out@) =~= Seq::<RecordView>::empty());
    assert(table[0] == row_view(header@));
    let twice: bool = repeated(header, "id_str", id_at) || repeated(header, "a_int", count_at)
        || repeated(header, "opt_str", label_at) || repeated(header, "opt_float", score_at);
    if twice {
        if n == 1 {
            return Ok(out);
        }
        proof {
            assert(ambiguous(table[0]));
            assert(decode_prefix(table, 1) is Ok);
            assert(decode_prefix(table, 2) == Err::<Seq<RecordView>, (int, DecodeError)>(
                (1int, DecodeError::DuplicateColumn),
            ));
            lemma_failure_stays(table, 2, n as int);
        }
        return Err(TableError::Row { row: 1, error: DecodeError::DuplicateColumn });
    }
    let mut i: usize = 1;
    while i < n
        invariant
            1 <= i <= n,
            n == rows.len(),
            table == table_view(rows@),
            header@ == rows@[0]@,
            !ambiguous(table[0]),
            match id_at {
                Some(c) => find_from(table[0], id_column(), 0) == Some(c as int),
                None => find_from(table[0], id_column(), 0).is_none(),
            },
            match count_at {
                Some(c) => find_from(table[0], count_column(), 0) == Some(c as int),
                None => find_from(table[0], count_column(), 0).is_none(),
            },
            match label_at {
                Some(c) => find_from(table[0], label_column(), 0) == Some(c as int),
                None => find_from(table[0], label_column(), 0).is_none(),
            },
            match score_at {
                Some(c) => find_from(table[0], score_column(), 0) == Some(c as int),
                None => find_from(table[0], score_column(), 0).is_none(),
            },
            decode_prefix(table, i as int) == Ok::<Seq<RecordView>, (int, DecodeError)>(
                records_view(out@),
            ),
            forall|j: int| 0 <= j < out.len() ==> (#[trigger] out[j]).valid(),
        decreases n - i,
    {
        let row: &Vec<String> = &rows[i];
        let fields = Fields {
            id_str: cell_at(row, id_at),
            a_int: cell_at(row, count_at),
            opt_str: cell_at(row, label_at),
            opt_float: cell_at(row, score_at),
        };
        proof {
            assert(table[i as int] == row_view(row@));
            assert(fields@ == row_fields(table[0], table[i as int]));
        }
        match decode_one(fields) {
            Ok(record) => {
                let ghost before = out@;
                out.push(record);
                proof {
                    assert(records_view(out@) =~= records_view(before).push(record@));
                }
            },
            Err(error) => {
                proof {
                    lemma_failure_stays(table, i + 1, n as int);
                }
                return Err(TableError::Row { row: i, error });
            },
        }
        i += 1;
    }
    Ok(out)
}

/// Decodes a delimited-text payload into its records: the reader splits the
/// bytes into rows, and the rows are decoded in order. Either every row is a
/// record and all of them are returned, or none is: the first row that holds
/// no record is reported, and where every row read is a record but the reader
/// stopped on an error of its own, that error is.
pub fn decode(bytes: &[u8]) -> (r: Result<Vec<Record>, TableError>)
    ensures
        match r {
            Ok(records) => csv_scan(bytes@).1 && decode_table(csv_scan(bytes@).0) == Ok::<
                Seq<RecordView>,
                (int, DecodeError),
            >(records_view(records@)) && forall|i: int|
                0 <= i < records.len() ==> (#[trigger] records[i]).valid(),
            Err(TableError::Row { row, error }) => decode_table(csv_scan(bytes@).0) == Err::<
                Seq<RecordView>,
                (int, DecodeError),
            >((row as int, error)),
            Err(TableError::Malformed { .. }) => !csv_scan(bytes@).1 && decode_table(
                csv_scan(bytes@).0,
            ) is Ok,
        },
{
    let (rows, failure) = scan_rows(bytes);
    match decode_rows(&rows) {
        Ok(records) => match failure {
            None => Ok(records),
            Some(error) => Err(TableError::Malformed { detail: csv_error_text(&error) }),
        },
        Err(e) => Err(e),
    }
}

/// The header row as owned texts.
fn header_cells() -> (r: Vec<String>)
    ensures
        row_view(r@) == header_row(),
{
    let mut row: Vec<String> = Vec::new();
    row.push(String::from_str("id_str"));
    row.push(String::from_str("a_int"));
    row.push(String::from_str("opt_str"));
    row.push(String::from_str("opt_float"));
    assert(row_view(row@) =~= header_row());
    row
}

/// The row of one record as owned texts.
fn record_cells(record: &Record) -> (r: Vec<String>)
    ensures
        row_view(r@) == record_row(record@),
{
    let Fields { id_str, a_int, opt_str, opt_float } = encode_one(record);
    let mut row: Vec<String> = Vec::new();
    row.push(id_str.unwrap());
    row.push(a_int.unwrap());
    row.push(opt_str.unwrap());
    row.push(opt_float.unwrap());
    assert(row_view(row@) =~= record_row(record@));
    row
}

/// Lays a list of records out as the rows of a table: the header row, which
/// is there even for an empty list, then one row per record, in order.
pub fn encode_rows(records: &Vec<Record>) -> (r: Vec<Vec<String>>)
    ensures
        table_view(r@) == encode_table(records_view(records@)),
{
    let mut rows: Vec<Vec<String>> = Vec::new();
    rows.push(header_cells());
    let mut i: usize = 0;
    while i < records.len()
        invariant
            i <= records.len(),
            rows.len() == i + 1,
            row_view(rows@[0]@) == header_row(),
            forall|j: int| 1 <= j <= i ==> row_view(#[trigger] rows@[j]@) == record_row(records@[j - 1]@),
        decreases records.len() - i,
    {
        rows.push(record_cells(&records[i]));
        i += 1;
    }
    assert(table_view(rows@) =~= encode_table(records_view(records@)));
    rows
}

/// Encodes a list of records as a delimited-text payload: the rows of
/// [`encode_rows`], written by the writer. `None` where the writer reports an
/// error.
pub fn encode(records: &Vec<Record>) -> (r: Option<Vec<u8>>)
    ensures
        match r {
            Some(bytes) => csv_text(encode_table(records_view(records@))) == Some(bytes@),
            None => csv_text(encode_table(records_view(records@))).is_none(),
        },
{
    let rows = encode_rows(records);
    match write_rows(&rows) {
        Ok(bytes) => Some(bytes),
        Err(_) => None,
    }
}

/// The four column names are found at their places in the header row.
pub proof fn lemma_header_places()
    ensures
        find_from(header_row(), id_column(), 0) == Some(0int),
        find_from(header_row(), count_column(), 0) == Some(1int),
        find_from(header_row(), label_column(), 0) == Some(2int),
        find_from(header_row(), score_column(), 0) == Some(3int),
        !ambiguous(header_row()),
{
    reveal_strlit("id_str");
    reveal_strlit("a_int");
    reveal_strlit("opt_str");
    reveal_strlit("opt_float");
    reveal_with_fuel(find_from, 5);
    let h = header_row();
    assert(h[0] == id_column() && h[1] == count_column() && h[2] == label_column() && h[3]
        == score_column());
    assert(id_column().len() == 6 && count_column().len() == 5 && label_column().len() == 7
        && score_column().len() == 9);
}

/// The cells of a record's row, read by the header's column names, are the
/// cells the record was encoded to.
pub proof fn lemma_row_fields_of_record_row(r: RecordView)
    ensures
        row_fields(header_row(), record_row(r)) == encode_fields(r),
{
    lemma_header_places();
}

/// Decoding the table that a list of valid records was encoded to gives the
/// same records back, in the same order.
pub proof fn lemma_table_round_trip(records: Seq<RecordView>)
    requires
        forall|i: int| 0 <= i < records.len() ==> (#[trigger] records[i]).valid(),
    ensures
        decode_table(encode_table(records)) == Ok::<Seq<RecordView>, (int, DecodeError)>(
            records,
        ),
{
    lemma_table_prefix_round_trip(records, records.len() as int + 1);
    assert(records.take(records.len() as int) =~= records);
}

/// Decoding the first rows of an encoded table gives the first records back.
proof fn lemma_table_prefix_round_trip(records: Seq<RecordView>, n: int)
    requires
        forall|i: int| 0 <= i < records.len() ==> (#[trigger] records[i]).valid(),
        1 <= n <= records.len() + 1,
    ensures
        decode_prefix(encode_table(records), n) == Ok::<Seq<RecordView>, (int, DecodeError)>(
            records.take(n - 1),
        ),
    decreases n,
{
    let table = encode_table(records);
    if n == 1 {
        assert(records.take(0) =~= Seq::<RecordView>::empty());
    } else {
        lemma_table_prefix_round_trip(records, n - 1);
        let r = records[n - 2];
        assert(r.valid());
        lemma_header_places();
        lemma_row_fields_of_record_row(r);
        crate::codec::lemma_decode_encode_round_trip(r);
        assert(table[0] == header_row());
        assert(table[n - 1] == record_row(r));
        assert(records.take(n - 2).push(r) =~= records.take(n - 1));
    }
}

/// The message text of a decode error.
pub open spec fn decode_error_text(e: DecodeError) -> Seq<char> {
    match e {
        DecodeError::MissingId => "missing column id_str"@,
        DecodeError::EmptyId => "empty id_str"@,
        DecodeError::MissingCount => "missing column a_int"@,
        DecodeError::InvalidCount => "a_int is not a 32-bit integer"@,
        DecodeError::InvalidScore => "opt_float is not a number"@,
        DecodeError::DuplicateColumn => "a column is named twice"@,
    }
}

/// The message text of a table error: the reader's own report, or the row's
/// number and the reason.
pub open spec fn table_error_text(e: TableError) -> Seq<char> {
    match e {
        TableError::Malformed { detail } => detail@,
        TableError::Row { row, error } => "row "@ + crate::number::nat_text(row as nat) + ": "@
            + decode_error_text(error),
    }
}

impl TableError {
    /// The message text of this error.
    pub fn describe(&self) -> (r: String)
        ensures
            r@ == table_error_text(*self),
    {
        match self {
            TableError::Malformed { detail } => detail.clone(),
            TableError::Row { row, error } => {
                let mut out = String::from_str("row ");
                push_nat(&mut out, *row as u64);
                out.append(": ");
                let reason: &str = match error {
                    DecodeError::MissingId => "missing column id_str",
                    DecodeError::EmptyId => "empty id_str",
                    DecodeError::MissingCount => "missing column a_int",
                    DecodeError::InvalidCount => "a_int is not a 32-bit integer",
                    DecodeError::InvalidScore => "opt_float is not a number",
                    DecodeError::DuplicateColumn => "a column is named twice",
                };
                out.append(reason);
                out
            },
        }
    }
}

} // verus!
