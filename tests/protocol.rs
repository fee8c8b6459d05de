use homecore::codec::{from_json, frame_line, read_frame, to_json, DecodeError, FrameError};
use homecore::envelope::{classify, Envelope, Kind, Message, RpcError, ShapeError};
use homecore::json::JsonValue;

fn text(s: &str) -> String {
    s.to_string()
}

fn object(entries: Vec<(&str, JsonValue)>) -> JsonValue {
    JsonValue::Object(entries.into_iter().map(|(k, v)| (k.to_string(), v)).collect())
}

#[test]
fn envelope_roundtrip() {
    let env = Envelope {
        id: Some("1".into()),
        kind: Kind::Request,
        method: Some("test".into()),
        params: Some(object(vec![("a", JsonValue::UInt(1))])),
        result: None,
        error: None,
        topic: None,
        payload: None,
    };
    let v = to_json(&env);
    let de = from_json(&v).unwrap();
    assert_eq!(env, de);
}

#[test]
fn encoding_leaves_out_absent_fields() {
    let env = Envelope::response_err(
        Some(text("r")),
        RpcError { code: -32601, message: text("unknown method nope") },
    );
    let expected = object(vec![
        ("kind", JsonValue::Str(text("response"))),
        ("id", JsonValue::Str(text("r"))),
        (
            "error",
            object(vec![
                ("code", JsonValue::NegInt(-32601)),
                ("message", JsonValue::Str(text("unknown method nope"))),
            ]),
        ),
    ]);
    assert_eq!(to_json(&env), expected);
}

#[test]
fn round_trip_of_event_with_payload() {
    let env = Envelope::event(
        text("timer.tick"),
        Some(object(vec![("id", JsonValue::Str(text("t"))), ("now_ms", JsonValue::UInt(5))])),
    );
    assert_eq!(from_json(&to_json(&env)), Ok(env));
}

#[test]
fn null_text_fields_read_as_absent_null_values_stay() {
    let v = object(vec![
        ("kind", JsonValue::Str(text("event"))),
        ("id", JsonValue::Null),
        ("topic", JsonValue::Str(text("system.ready"))),
        ("payload", JsonValue::Null),
    ]);
    let env = from_json(&v).unwrap();
    assert_eq!(env, Envelope::event(text("system.ready"), Some(JsonValue::Null)));
    let resp = object(vec![
        ("kind", JsonValue::Str(text("response"))),
        ("id", JsonValue::Str(text("1"))),
        ("result", JsonValue::Null),
    ]);
    let env = from_json(&resp).unwrap();
    assert_eq!(env, Envelope::response_ok(Some(text("1")), JsonValue::Null));
    assert_eq!(from_json(&to_json(&env)), Ok(env));
}

#[test]
fn decoding_refuses_bad_values() {
    assert_eq!(from_json(&JsonValue::Str(text("x"))), Err(DecodeError::NotAnObject));
    let no_kind = object(vec![("id", JsonValue::Str(text("1")))]);
    assert_eq!(from_json(&no_kind), Err(DecodeError::BadKind));
    let odd_kind = object(vec![("kind", JsonValue::Str(text("notice")))]);
    assert_eq!(from_json(&odd_kind), Err(DecodeError::BadKind));
    let numeric_id = object(vec![
        ("kind", JsonValue::Str(text("request"))),
        ("id", JsonValue::UInt(7)),
        ("method", JsonValue::Str(text("m"))),
    ]);
    assert_eq!(from_json(&numeric_id), Err(DecodeError::BadField));
    let big_code = object(vec![
        ("kind", JsonValue::Str(text("response"))),
        ("id", JsonValue::Str(text("1"))),
        (
            "error",
            object(vec![
                ("code", JsonValue::UInt(1 << 40)),
                ("message", JsonValue::Str(text("m"))),
            ]),
        ),
    ]);
    assert_eq!(from_json(&big_code), Err(DecodeError::BadField));
}

#[test]
fn unknown_fields_are_ignored() {
    let v = object(vec![
        ("kind", JsonValue::Str(text("request"))),
        ("id", JsonValue::Str(text("r"))),
        ("method", JsonValue::Str(text("nope"))),
        ("extra", JsonValue::Bool(true)),
    ]);
    assert_eq!(from_json(&v), Ok(Envelope::request(text("r"), text("nope"), None)));
}

#[test]
fn each_envelope_has_one_shape() {
    let req = Envelope::request(text("1"), text("m"), None);
    assert!(matches!(classify(req), Ok(Message::Request { .. })));
    let resp = Envelope::response_ok(Some(text("1")), JsonValue::Null);
    assert!(matches!(classify(resp), Ok(Message::Response { .. })));
    let ev = Envelope::event(text("t"), None);
    assert!(matches!(classify(ev), Ok(Message::Event { .. })));

    let mut both = Envelope::response_ok(Some(text("1")), JsonValue::Null);
    both.error = Some(RpcError { code: 1, message: text("x") });
    assert_eq!(classify(both), Err(ShapeError::AmbiguousOutcome));
    let mut neither = Envelope::response_ok(Some(text("1")), JsonValue::Null);
    neither.result = None;
    assert_eq!(classify(neither), Err(ShapeError::MissingOutcome));
    let mut no_method = Envelope::request(text("1"), text("m"), None);
    no_method.method = None;
    assert_eq!(classify(no_method), Err(ShapeError::MissingMethod));
    let mut no_id = Envelope::request(text("1"), text("m"), None);
    no_id.id = None;
    assert_eq!(classify(no_id), Err(ShapeError::MissingId));
    let mut no_topic = Envelope::event(text("t"), None);
    no_topic.topic = None;
    assert_eq!(classify(no_topic), Err(ShapeError::MissingTopic));
}

#[test]
fn frames_are_single_lines() {
    assert_eq!(frame_line("{\"kind\":\"event\"}"), Some(text("{\"kind\":\"event\"}\n")));
    assert_eq!(frame_line("{\n}"), None);
    assert_eq!(frame_line(""), Some(text("\n")));
}

#[test]
fn reading_a_frame() {
    assert_eq!(read_frame(""), Err(FrameError::ClosedPipe));
    assert_eq!(read_frame("\n"), Err(FrameError::BlankLine));
    assert_eq!(read_frame("  \t\r\n"), Err(FrameError::BlankLine));
    assert_eq!(read_frame("{\"a\":1}  \n"), Ok(text("{\"a\":1}")));
    assert_eq!(read_frame("  {}"), Ok(text("{}")));
}
