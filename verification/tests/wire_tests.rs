//! The wire codec: serialization shapes, parsing, and the framing round
//! trip.

use lai::json::{JsonObject, JsonScalar};
use lai::wire::{read_envelope, read_response, write_envelope, write_response, Envelope, Response};

fn obj(fields: Vec<(&str, JsonScalar)>) -> JsonObject {
    JsonObject {
        fields: fields.into_iter().map(|(k, v)| (k.to_string(), v)).collect(),
    }
}

#[test]
fn test_ipc_message_serialization() {
    let msg = Envelope {
        kind: "test".to_string(),
        message: Some("hello".to_string()),
        payload: Some(obj(vec![("key", JsonScalar::Str("value".to_string()))])),
    };

    let json = write_envelope(&msg);
    assert!(json.contains("\"type\":\"test\""));
    assert!(json.contains("\"message\":\"hello\""));
    assert!(json.contains("\"key\":\"value\""));
}

#[test]
fn test_ipc_response_deserialization() {
    let json = r#"{"status":"ok","data":{"content":"test message"}}"#;
    let response: Response = read_response(json).expect("Deserialization should work");

    assert_eq!(response.status, "ok");
    assert!(response.data.is_some());
}

#[test]
fn test_error_response_handling() {
    let json = r#"{"status":"error","data":{"error":"Test error message"}}"#;
    let response: Response = read_response(json).expect("Error response should deserialize");

    assert_eq!(response.status, "error");
    if let Some(data) = response.data {
        assert_eq!(
            data.get_str(&"error".to_string()),
            Some("Test error message".to_string())
        );
    } else {
        panic!("Error response should have data");
    }
}

#[test]
fn envelope_round_trip_all_fields() {
    let e = Envelope {
        kind: "ask".to_string(),
        message: Some("line one\nline \"two\"\t\\slash".to_string()),
        payload: Some(obj(vec![
            ("prompt", JsonScalar::Str("why?".to_string())),
            ("model", JsonScalar::Null),
            ("new", JsonScalar::Bool(false)),
            ("n", JsonScalar::Int(-42)),
        ])),
    };
    let line = write_envelope(&e);
    assert!(line.ends_with('\n'));
    assert!(!line[..line.len() - 1].contains('\n'));
    let back = read_envelope(&line).expect("written envelope must parse");
    assert_eq!(back.kind, "ask");
    assert_eq!(back.message.as_deref(), Some("line one\nline \"two\"\t\\slash"));
    let p = back.payload.expect("payload kept");
    assert_eq!(p.fields.len(), 4);
    assert_eq!(p.get_str(&"prompt".to_string()), Some("why?".to_string()));
    match &p.fields[3].1 {
        JsonScalar::Int(i) => assert_eq!(*i, -42),
        _ => panic!("integer field kept"),
    }
}

#[test]
fn envelope_round_trip_minimal() {
    let e = Envelope {
        kind: "last".to_string(),
        message: None,
        payload: None,
    };
    let line = write_envelope(&e);
    assert_eq!(line, "{\"type\":\"last\"}\n");
    let back = read_envelope(&line).expect("parses");
    assert_eq!(back.kind, "last");
    assert!(back.message.is_none());
    assert!(back.payload.is_none());
}

#[test]
fn response_round_trip() {
    let r = Response {
        status: "error".to_string(),
        data: Some(obj(vec![("error", JsonScalar::Str("No messages found".to_string()))])),
    };
    let line = write_response(&r);
    assert_eq!(line, "{\"status\":\"error\",\"data\":{\"error\":\"No messages found\"}}\n");
    let back = read_response(&line).expect("parses");
    assert_eq!(back.status, "error");
    assert_eq!(
        back.data.unwrap().get_str(&"error".to_string()),
        Some("No messages found".to_string())
    );
}

#[test]
fn response_ok_is_bare() {
    let r = Response { status: "ok".to_string(), data: None };
    assert_eq!(write_response(&r), "{\"status\":\"ok\"}\n");
}

#[test]
fn int_extremes_round_trip() {
    let e = Envelope {
        kind: "t".to_string(),
        message: None,
        payload: Some(obj(vec![
            ("lo", JsonScalar::Int(i64::MIN)),
            ("hi", JsonScalar::Int(i64::MAX)),
            ("zero", JsonScalar::Int(0)),
        ])),
    };
    let line = write_envelope(&e);
    assert!(line.contains("-9223372036854775808"));
    assert!(line.contains("9223372036854775807"));
    let back = read_envelope(&line).expect("parses");
    let p = back.payload.unwrap();
    match (&p.fields[0].1, &p.fields[1].1, &p.fields[2].1) {
        (JsonScalar::Int(a), JsonScalar::Int(b), JsonScalar::Int(c)) => {
            assert_eq!(*a, i64::MIN);
            assert_eq!(*b, i64::MAX);
            assert_eq!(*c, 0);
        }
        _ => panic!("integers kept"),
    }
}

#[test]
fn malformed_lines_are_rejected() {
    assert!(read_envelope("").is_none());
    assert!(read_envelope("not json").is_none());
    assert!(read_envelope("{\"type\":}").is_none());
    assert!(read_envelope("{\"message\":\"no type\"}").is_none());
    assert!(read_envelope("{\"type\":\"x\"}trailing").is_none());
    assert!(read_response("{\"data\":{}}").is_none());
}

#[test]
fn unknown_fields_are_ignored_and_later_duplicates_win() {
    let e = read_envelope("{\"extra\":1,\"type\":\"a\",\"type\":\"b\"}\n").expect("parses");
    assert_eq!(e.kind, "b");
}
