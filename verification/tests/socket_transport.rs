use bsv_messagebox_client::socket_transport::{decode_ws_event, encode_ws_event};

fn value(text: &str) -> serde_json::Value {
    serde_json::from_str(text).expect("JSON")
}

#[test]
fn encode_decode_round_trip() {
    let data = value(r#"{"identityKey": "03abc"}"#);
    let encoded = encode_ws_event("authenticated", &data);
    let (name, decoded_data) = decode_ws_event(&encoded).expect("round-trip should succeed");
    assert_eq!(name, "authenticated");
    assert_eq!(decoded_data, data);
}

#[test]
fn encode_produces_correct_json_structure() {
    let encoded = encode_ws_event("myEvent", &value("42"));
    let v: serde_json::Value = serde_json::from_slice(&encoded).unwrap();
    assert_eq!(v["eventName"], "myEvent");
    assert_eq!(v["data"], 42);
}

#[test]
fn decode_invalid_utf8_returns_none() {
    let bad = vec![0xFF, 0xFE, 0x00];
    assert!(decode_ws_event(&bad).is_none());
}

#[test]
fn decode_valid_json_missing_event_name_returns_none() {
    let json = br#"{"data": {"foo": "bar"}}"#;
    assert!(decode_ws_event(json).is_none());
}

#[test]
fn decode_empty_bytes_returns_none() {
    assert!(decode_ws_event(&[]).is_none());
}

#[test]
fn encode_decode_preserves_nested_data() {
    let data = value(r#"{"nested": {"a": 1, "b": [1, 2, 3]}}"#);
    let encoded = encode_ws_event("complexEvent", &data);
    let (name, decoded) = decode_ws_event(&encoded).unwrap();
    assert_eq!(name, "complexEvent");
    assert_eq!(decoded, data);
}

#[test]
fn events_without_data_carry_null() {
    let (name, data) = decode_ws_event(br#"{"eventName":"e"}"#).unwrap();
    assert_eq!(name, "e");
    assert!(data.is_null());
    assert!(decode_ws_event(br#"{"eventName":7,"data":1}"#).is_none());
    assert!(decode_ws_event(b"[1]").is_none());
}

#[test]
fn event_names_are_quoted() {
    let encoded = encode_ws_event("a\"b\n", &value("null"));
    assert_eq!(decode_ws_event(&encoded).unwrap().0, "a\"b\n");
}

#[test]
fn wide_data_survive() {
    let wide = format!("[{}]", vec!["[]"; 200].join(","));
    let brackets = format!("\"{}\\\"{}\"", "[".repeat(150), "{".repeat(150));
    for text in [wide, brackets] {
        let data = value(&text);
        let encoded = encode_ws_event("e", &data);
        assert_eq!(decode_ws_event(&encoded), Some(("e".to_string(), data)));
    }
}

#[test]
fn deep_data_survive_up_to_a_limit() {
    let nested = |depth: usize| {
        (1..depth).fold(serde_json::Value::Array(vec![]), |v, _| serde_json::Value::Array(vec![v]))
    };
    let data = nested(126);
    let encoded = encode_ws_event("e", &data);
    assert_eq!(decode_ws_event(&encoded), Some(("e".to_string(), data)));
    assert_eq!(decode_ws_event(&encode_ws_event("e", &nested(127))), None);
}

#[test]
fn integers_survive() {
    let data = value("[0,-1,18446744073709551615,-9223372036854775808,true,false,null]");
    let encoded = encode_ws_event("e", &data);
    assert_eq!(decode_ws_event(&encoded), Some(("e".to_string(), data)));
}
