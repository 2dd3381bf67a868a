use ffprobe::probe::{
    DURATION_NOT_A_NUMBER, DURATION_NOT_A_STRING, FORMAT_NOT_AN_OBJECT, NOT_AN_OBJECT,
    NO_DURATION, NO_FORMAT, NO_STREAMS, STREAMS_NOT_AN_ARRAY, STREAM_NOT_AN_OBJECT,
};
use ffprobe::{decode, read_document, FFProbe, FFProbeError, Format, Stream};

fn json_error(text: &str) -> String {
    match decode(text.as_bytes()) {
        Err(FFProbeError::Json(why)) => why,
        other => panic!("expected a decode failure, got {:?}", other),
    }
}

#[test]
fn empty_streams_and_duration_as_text() {
    let probe = decode(br#"{"streams":[],"format":{"duration":"12.5"}}"#).unwrap();
    assert!(probe.streams.is_empty());
    assert_eq!(probe.format.duration, "12.5");
    assert_eq!(probe.format.duration.parse::<f64>().unwrap(), 12.5);
}

#[test]
fn one_stream_for_each_element() {
    let probe = decode(
        br#"{"streams":[{"index":0,"codec_type":"video"},{"index":1,"codec_type":"audio"},{}],
            "format":{"duration":"1"}}"#,
    )
    .unwrap();
    assert_eq!(probe.streams.len(), 3);
    assert_eq!(probe.streams, vec![Stream {}, Stream {}, Stream {}]);
}

#[test]
fn duration_is_within_tolerance_of_what_the_tool_wrote() {
    let probe = decode(br#"{"streams":[{}],"format":{"duration":"634.584000"}}"#).unwrap();
    let seconds: f64 = probe.format.duration.parse().unwrap();
    assert!((seconds - 634.584).abs() < 1e-9);
}

#[test]
fn fields_that_are_not_read_are_passed_over() {
    let probe = decode(
        br#"{"programs":[],"streams":[{"tags":{"language":"eng"},"disposition":{"default":1}}],
            "format":{"filename":"a.mkv","nb_streams":1,"duration":"0.040000","size":"1024",
            "tags":{"title":null,"n":[1,2.5,true]}}}"#,
    )
    .unwrap();
    assert_eq!(
        probe,
        FFProbe { streams: vec![Stream {}], format: Format { duration: "0.040000".to_string() } }
    );
}

#[test]
fn text_that_is_no_json_is_a_decode_failure() {
    assert!(matches!(decode(b"this is not json"), Err(FFProbeError::Json(_))));
    assert!(matches!(decode(b""), Err(FFProbeError::Json(_))));
    assert!(matches!(decode(b"{\"streams\":[],"), Err(FFProbeError::Json(_))));
    assert!(matches!(decode(&[0xff, 0xfe]), Err(FFProbeError::Json(_))));
}

#[test]
fn parser_message_is_carried() {
    let expected = serde_json::from_slice::<serde_json::Value>(b"nope").unwrap_err().to_string();
    assert_eq!(json_error("nope"), expected);
    assert!(!expected.is_empty());
}

#[test]
fn trailing_text_is_a_decode_failure() {
    let why = json_error(r#"{"streams":[],"format":{"duration":"1"}} x"#);
    assert!(why.starts_with("trailing characters"));
}

#[test]
fn report_must_be_an_object() {
    assert_eq!(json_error("[]"), NOT_AN_OBJECT);
    assert_eq!(json_error("null"), NOT_AN_OBJECT);
    assert_eq!(json_error("12.5"), NOT_AN_OBJECT);
    assert_eq!(json_error("\"streams\""), NOT_AN_OBJECT);
    assert_eq!(json_error("true"), NOT_AN_OBJECT);
}

#[test]
fn streams_must_be_there() {
    assert_eq!(json_error(r#"{"format":{"duration":"1"}}"#), NO_STREAMS);
    assert_eq!(json_error(r#"{}"#), NO_STREAMS);
    assert_eq!(json_error(r#"{"Streams":[],"format":{"duration":"1"}}"#), NO_STREAMS);
}

#[test]
fn streams_must_be_an_array() {
    assert_eq!(json_error(r#"{"streams":{},"format":{"duration":"1"}}"#), STREAMS_NOT_AN_ARRAY);
    assert_eq!(json_error(r#"{"streams":null,"format":{"duration":"1"}}"#), STREAMS_NOT_AN_ARRAY);
    assert_eq!(json_error(r#"{"streams":2,"format":{"duration":"1"}}"#), STREAMS_NOT_AN_ARRAY);
}

#[test]
fn each_stream_must_be_an_object() {
    assert_eq!(
        json_error(r#"{"streams":[{},1,{}],"format":{"duration":"1"}}"#),
        STREAM_NOT_AN_OBJECT
    );
    assert_eq!(
        json_error(r#"{"streams":[{},{},null],"format":{"duration":"1"}}"#),
        STREAM_NOT_AN_OBJECT
    );
    assert_eq!(json_error(r#"{"streams":[[]],"format":{"duration":"1"}}"#), STREAM_NOT_AN_OBJECT);
}

#[test]
fn format_must_be_there() {
    assert_eq!(json_error(r#"{"streams":[]}"#), NO_FORMAT);
}

#[test]
fn format_must_be_an_object() {
    assert_eq!(json_error(r#"{"streams":[],"format":["duration"]}"#), FORMAT_NOT_AN_OBJECT);
    assert_eq!(json_error(r#"{"streams":[],"format":"12.5"}"#), FORMAT_NOT_AN_OBJECT);
}

#[test]
fn duration_must_be_there() {
    assert_eq!(json_error(r#"{"streams":[],"format":{}}"#), NO_DURATION);
    assert_eq!(json_error(r#"{"streams":[],"format":{"size":"1"}}"#), NO_DURATION);
}

#[test]
fn duration_must_be_a_string() {
    assert_eq!(json_error(r#"{"streams":[],"format":{"duration":12.5}}"#), DURATION_NOT_A_STRING);
    assert_eq!(json_error(r#"{"streams":[],"format":{"duration":null}}"#), DURATION_NOT_A_STRING);
}

#[test]
fn duration_must_be_a_number() {
    assert_eq!(json_error(r#"{"streams":[],"format":{"duration":"N/A"}}"#), DURATION_NOT_A_NUMBER);
    assert_eq!(json_error(r#"{"streams":[],"format":{"duration":""}}"#), DURATION_NOT_A_NUMBER);
    assert_eq!(
        json_error(r#"{"streams":[],"format":{"duration":"12.5 s"}}"#),
        DURATION_NOT_A_NUMBER
    );
}

#[test]
fn streams_are_judged_before_the_format() {
    assert_eq!(json_error(r#"{"streams":[0],"format":7}"#), STREAM_NOT_AN_OBJECT);
    assert_eq!(json_error(r#"{"format":7}"#), NO_STREAMS);
}

#[test]
fn duration_with_escapes_is_read_as_the_text_it_stands_for() {
    let probe = decode(br#"{"streams":[],"format":{"duration":"1.5"}}"#).unwrap();
    assert_eq!(probe.format.duration, "1.5");
}

#[test]
fn a_parsed_document_is_read_like_its_text() {
    let text = r#"{"streams":[{},{}],"format":{"duration":"3e2"}}"#;
    let doc: serde_json::Value = serde_json::from_str(text).unwrap();
    assert_eq!(read_document(&doc), decode(text.as_bytes()));
    assert_eq!(read_document(&doc).unwrap().streams.len(), 2);
}

#[test]
fn a_document_built_by_hand_is_read() {
    let mut format = serde_json::Map::new();
    format.insert("duration".to_string(), serde_json::Value::String("7.25".to_string()));
    let mut root = serde_json::Map::new();
    root.insert(
        "streams".to_string(),
        serde_json::Value::Array(vec![serde_json::Value::Object(serde_json::Map::new())]),
    );
    root.insert("format".to_string(), serde_json::Value::Object(format));
    let probe = read_document(&serde_json::Value::Object(root)).unwrap();
    assert_eq!(probe.streams.len(), 1);
    assert_eq!(probe.format.duration, "7.25");

    assert_eq!(
        read_document(&serde_json::Value::Array(vec![])),
        Err(FFProbeError::Json(NOT_AN_OBJECT.to_string()))
    );
}
