use csv_ingest::models::{JsonError, Record};
use csv_ingest::service::{
    ingest_reply, insert_statement, settle_decode, plan_inserts, query_csv, screen_scores, select_statement,
    transform_csv, Body,
    Decoded, Ingest, Reply, SqlValue, Statement, STATUS_FAILED, STATUS_NOT_FOUND, STATUS_OK,
};
use csv_ingest::codec::DecodeError;
use csv_ingest::table::TableError;

fn record(id: &str, n: i32, label: Option<&str>, score: Option<&str>) -> Record {
    Record { id_str: id.to_string(), a_int: n, opt_str: label.map(String::from), opt_float: score.map(String::from) }
}

fn text(s: &str) -> SqlValue {
    SqlValue::Text(s.to_string())
}

#[test]
fn insert_with_both_optional_columns() {
    let s = insert_statement(&record("k", 4, Some("l"), Some("1.5")));
    assert_eq!(s.sql, "INSERT INTO my_table (id_str, a_int, opt_str, opt_float) VALUES ($1, $2, $3, $4)");
    assert_eq!(s.params, vec![text("k"), SqlValue::Int(4), text("l"), SqlValue::Double("1.5".to_string())]);
}

#[test]
fn insert_with_the_score_only() {
    let s = insert_statement(&record("k", 4, None, Some("1.5")));
    assert_eq!(s.sql, "INSERT INTO my_table (id_str, a_int, opt_float) VALUES ($1, $2, $3)");
    assert_eq!(s.params, vec![text("k"), SqlValue::Int(4), SqlValue::Double("1.5".to_string())]);
}

#[test]
fn insert_with_the_label_only() {
    let s = insert_statement(&record("k", 4, Some("l"), None));
    assert_eq!(s.sql, "INSERT INTO my_table (id_str, a_int, opt_str) VALUES ($1, $2, $3)");
    assert_eq!(s.params, vec![text("k"), SqlValue::Int(4), text("l")]);
}

#[test]
fn insert_with_no_optional_column() {
    let s = insert_statement(&record("k", 4, None, None));
    assert_eq!(s.sql, "INSERT INTO my_table (id_str, a_int) VALUES ($1, $2)");
    assert_eq!(s.params, vec![text("k"), SqlValue::Int(4)]);
}

#[test]
fn one_insert_per_record_in_order() {
    let records = vec![record("a", 1, None, None), record("b", 2, Some("x"), None), record("c", 3, None, Some("0.5"))];
    let statements = plan_inserts(&records);
    assert_eq!(statements.len(), 3);
    for (s, r) in statements.iter().zip(records.iter()) {
        assert_eq!(*s, insert_statement(r));
    }
    assert_eq!(plan_inserts(&vec![]), Vec::<Statement>::new());
}

#[test]
fn select_by_key() {
    let s = select_statement("rec1");
    assert_eq!(s.sql, "SELECT id_str, a_int, opt_str, opt_float FROM my_table where id_str = $1");
    assert_eq!(s.params, vec![text("rec1")]);
}

#[test]
fn upload_of_two_rows_is_accepted() {
    let body = b"id_str,a_int,opt_str,opt_float\nrec1,42,hello,3.14\nrec2,7,,";
    let records = match transform_csv(body) {
        Decoded::Records(records) => records,
        other => panic!("unexpected: {:?}", other),
    };
    assert_eq!(records, vec![record("rec1", 42, Some("hello"), Some("3.14")), record("rec2", 7, None, None)]);
    match screen_scores(records, &vec![true, true]) {
        Ingest::Accepted { records, statements } => {
            assert_eq!(records.len(), 2);
            assert_eq!(statements.len(), 2);
            assert_eq!(statements[0].params.len(), 4);
            assert_eq!(statements[1].sql, "INSERT INTO my_table (id_str, a_int) VALUES ($1, $2)");
            let reply = ingest_reply(records.clone(), Ok(()));
            assert_eq!(reply, Reply { status: 200, body: Body::Records(records) });
        }
        other => panic!("unexpected: {:?}", other),
    }
    let found = query_csv(Ok(vec![record("rec1", 42, Some("hello"), Some("3.14"))]));
    assert_eq!(
        found,
        Reply { status: 200, body: Body::Records(vec![record("rec1", 42, Some("hello"), Some("3.14"))]) }
    );
    assert_eq!(query_csv(Ok(vec![])), Reply { status: 404, body: Body::Records(vec![]) });
}

#[test]
fn upload_with_a_bad_third_line_stores_nothing() {
    let body = b"id_str,a_int,opt_str,opt_float\nr1,1,,\nr2,2,,\nr3,oops,,\nr4,4,,\nr5,5,,\n";
    match transform_csv(body) {
        Decoded::Rejected(reply) => {
            assert_eq!(reply.status, STATUS_FAILED);
            assert_eq!(
                reply.body,
                Body::Failure(JsonError {
                    err: "type=csv_deserialization_error error=row 3: a_int is not a 32-bit integer".to_string()
                })
            );
        }
        other => panic!("unexpected: {:?}", other),
    }
}

#[test]
fn upload_that_the_reader_refuses_is_rejected() {
    match transform_csv(b"id_str,a_int\nk,1,extra\n") {
        Decoded::Rejected(Reply { status, body: Body::Failure(JsonError { err }) }) => {
            assert_eq!(status, 500);
            assert!(err.starts_with("type=csv_deserialization_error error="));
            assert!(err.len() > "type=csv_deserialization_error error=".len());
        }
        other => panic!("unexpected: {:?}", other),
    }
}

#[test]
fn empty_upload_is_accepted_with_nothing_to_do() {
    assert_eq!(transform_csv(b""), Decoded::Records(vec![]));
    assert_eq!(screen_scores(vec![], &vec![]), Ingest::Accepted { records: vec![], statements: vec![] });
}

#[test]
fn plan_of_a_decoded_payload() {
    let records = vec![record("a", 1, None, None)];
    assert_eq!(settle_decode(Ok(records.clone())), Decoded::Records(records));
    assert_eq!(
        settle_decode(Err(TableError::Row { row: 2, error: DecodeError::EmptyId })),
        Decoded::Rejected(Reply {
            status: 500,
            body: Body::Failure(JsonError { err: "type=csv_deserialization_error error=row 2: empty id_str".to_string() })
        })
    );
    assert_eq!(
        settle_decode(Err(TableError::Malformed { detail: "bad quote".to_string() })),
        Decoded::Rejected(Reply {
            status: 500,
            body: Body::Failure(JsonError { err: "type=csv_deserialization_error error=bad quote".to_string() })
        })
    );
}

#[test]
fn refused_insert_fails_the_upload() {
    let reply = ingest_reply(vec![record("a", 1, None, None)], Err("duplicate key".to_string()));
    assert_eq!(
        reply,
        Reply { status: 500, body: Body::Failure(JsonError { err: "type=postgres_error error=duplicate key".to_string() }) }
    );
}

#[test]
fn statuses() {
    assert_eq!(STATUS_OK, 200);
    assert_eq!(STATUS_NOT_FOUND, 404);
    assert_eq!(STATUS_FAILED, 500);
}

#[test]
fn lookup_of_a_missing_key() {
    let reply = query_csv(Ok(vec![]));
    assert_eq!(reply.status, STATUS_NOT_FOUND);
    assert_eq!(reply.body, Body::Records(vec![]));
}

#[test]
fn lookup_that_failed_or_found_two_rows_is_not_found() {
    let missing = Reply { status: 404, body: Body::Records(vec![]) };
    assert_eq!(query_csv(Err("connection closed".to_string())), missing);
    let two = vec![record("a", 1, None, None), record("a", 2, None, None)];
    assert_eq!(query_csv(Ok(two)), missing);
}

fn rejected(ingest: &Ingest) -> Option<u16> {
    match ingest {
        Ingest::Rejected(reply) => Some(reply.status),
        Ingest::Accepted { .. } => None,
    }
}

#[test]
fn scores_that_read_as_numbers_pass() {
    let records = vec![record("a", 1, None, Some("3.14")), record("b", 2, None, None), record("c", 3, None, Some("1e5"))];
    let readable: Vec<bool> = records
        .iter()
        .map(|r| r.opt_float.as_deref().map_or(true, |t| t.parse::<f64>().is_ok()))
        .collect();
    let statements = plan_inserts(&records);
    assert_eq!(screen_scores(records.clone(), &readable), Ingest::Accepted { records, statements });
}

#[test]
fn the_first_unreadable_score_rejects_the_upload() {
    let records = vec![
        record("a", 1, None, Some("3.14")),
        record("b", 2, None, None),
        record("c", 3, None, Some("three")),
        record("d", 4, None, Some("four")),
    ];
    let ingest = screen_scores(records, &vec![true, false, false, false]);
    assert_eq!(
        ingest,
        Ingest::Rejected(Reply {
            status: 500,
            body: Body::Failure(JsonError {
                err: "type=csv_deserialization_error error=row 3: opt_float is not a number".to_string()
            })
        })
    );
}

#[test]
fn a_score_without_an_entry_does_not_pass() {
    let records = vec![record("a", 1, None, None), record("b", 2, None, Some("1"))];
    assert_eq!(rejected(&screen_scores(records.clone(), &vec![])), Some(500));
    assert_eq!(rejected(&screen_scores(records.clone(), &vec![false])), Some(500));
    assert_eq!(rejected(&screen_scores(records, &vec![false, true])), None);
}
