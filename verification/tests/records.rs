use csv_ingest::codec::{decode_one, encode_one, DecodeError, Fields};
use csv_ingest::models::Record;

fn text(s: &str) -> Option<String> {
    Some(s.to_string())
}

fn sample(label: Option<&str>, score: Option<&str>) -> Record {
    Record {
        id_str: "rec1".to_string(),
        a_int: -17,
        opt_str: label.map(String::from),
        opt_float: score.map(String::from),
    }
}

#[test]
fn decodes_a_full_row() {
    let fields = Fields { id_str: text("rec1"), a_int: text("42"), opt_str: text("hello"), opt_float: text("3.14") };
    let record = decode_one(fields).unwrap();
    assert_eq!(record.id_str, "rec1");
    assert_eq!(record.a_int, 42);
    assert_eq!(record.opt_str, text("hello"));
    assert_eq!(record.opt_float, text("3.14"));
}

#[test]
fn empty_optional_cells_are_unset() {
    let fields = Fields { id_str: text("rec2"), a_int: text("7"), opt_str: text(""), opt_float: text("") };
    let record = decode_one(fields).unwrap();
    assert_eq!(record.opt_str, None);
    assert_eq!(record.opt_float, None);
}

#[test]
fn missing_optional_columns_are_unset() {
    let fields = Fields { id_str: text("rec2"), a_int: text("7"), opt_str: None, opt_float: None };
    let record = decode_one(fields).unwrap();
    assert_eq!(record, Record { id_str: "rec2".to_string(), a_int: 7, opt_str: None, opt_float: None });
}

#[test]
fn each_decode_error_has_its_input() {
    let e = decode_one(Fields { id_str: None, a_int: text("1"), opt_str: None, opt_float: None });
    assert_eq!(e, Err(DecodeError::MissingId));
    let e = decode_one(Fields { id_str: text(""), a_int: text("1"), opt_str: None, opt_float: None });
    assert_eq!(e, Err(DecodeError::EmptyId));
    let e = decode_one(Fields { id_str: text("k"), a_int: None, opt_str: None, opt_float: None });
    assert_eq!(e, Err(DecodeError::MissingCount));
    let e = decode_one(Fields { id_str: text("k"), a_int: text(""), opt_str: None, opt_float: None });
    assert_eq!(e, Err(DecodeError::InvalidCount));
    let e = decode_one(Fields { id_str: text("k"), a_int: text("4294967296"), opt_str: None, opt_float: None });
    assert_eq!(e, Err(DecodeError::InvalidCount));
    let e = decode_one(Fields { id_str: text("k"), a_int: text("seven"), opt_str: None, opt_float: None });
    assert_eq!(e, Err(DecodeError::InvalidCount));
}

#[test]
fn the_key_is_checked_before_the_integer() {
    let e = decode_one(Fields { id_str: None, a_int: None, opt_str: None, opt_float: None });
    assert_eq!(e, Err(DecodeError::MissingId));
}

#[test]
fn encode_emits_all_four_cells() {
    let fields = encode_one(&sample(None, None));
    assert_eq!(fields, Fields { id_str: text("rec1"), a_int: text("-17"), opt_str: text(""), opt_float: text("") });
    let fields = encode_one(&sample(Some("x y"), Some("2.5")));
    assert_eq!(fields, Fields { id_str: text("rec1"), a_int: text("-17"), opt_str: text("x y"), opt_float: text("2.5") });
}

#[test]
fn round_trip_keeps_set_and_unset_columns() {
    for label in [None, Some("label")] {
        for score in [None, Some("0"), Some("-1e-3")] {
            let record = sample(label, score);
            assert_eq!(decode_one(encode_one(&record)), Ok(record.duplicate()));
        }
    }
}

#[test]
fn duplicate_is_equal() {
    let record = sample(Some("a"), None);
    assert_eq!(record.duplicate(), record);
}
