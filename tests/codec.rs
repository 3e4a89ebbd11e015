use zeroclaw_ui::codec::{decode_chat_response, encode_chat_request, CodecError};

#[test]
fn encode_plain_message() {
    let r = encode_chat_request("hello").unwrap();
    assert_eq!(r.as_str(), "{\"message\": \"hello\"}");
}

#[test]
fn encode_escapes_special_characters() {
    let r = encode_chat_request("a\"b\\c\nd\te\u{1}").unwrap();
    assert_eq!(r.as_str(), "{\"message\": \"a\\\"b\\\\c\\nd\\te\\u0001\"}");
}

#[test]
fn encode_too_long_message() {
    let long = "x".repeat(1024);
    assert_eq!(encode_chat_request(&long).err(), Some(CodecError::MessageTooLong));
    let fits = "x".repeat(1024 - 15);
    assert_eq!(encode_chat_request(&fits).unwrap().len(), 1024);
    let over = "x".repeat(1024 - 14);
    assert!(encode_chat_request(&over).is_err());
}

#[test]
fn decode_response_field() {
    let r = decode_chat_response("{\"response\":\"hi\"}").unwrap();
    assert_eq!(r.response.unwrap().as_str(), "hi");
    assert!(r.error.is_none());
}

#[test]
fn decode_absent_and_null_response() {
    let r = decode_chat_response("{}").unwrap();
    assert!(r.response.is_none());
    let r = decode_chat_response("{\"response\": null}").unwrap();
    assert!(r.response.is_none());
}

#[test]
fn decode_empty_response_is_present() {
    let r = decode_chat_response("{\"response\":\"\"}").unwrap();
    assert_eq!(r.response.unwrap().as_str(), "");
}

#[test]
fn decode_error_and_unknown_fields() {
    let r = decode_chat_response(
        " { \"id\" : 7 , \"error\" : \"rate limited\", \"ok\": false, \"x\": \"y\" } ",
    )
    .unwrap();
    assert_eq!(r.error.unwrap().as_str(), "rate limited");
    assert!(r.response.is_none());
}

#[test]
fn decode_ignores_nested_unknown_fields() {
    let body = "{\"meta\":{\"tokens\":[1,2,{\"x\":null}],\"m\":{}},\"response\":\"ok\",\"list\":[]}";
    let r = decode_chat_response(body).unwrap();
    assert_eq!(r.response.unwrap().as_str(), "ok");
}

#[test]
fn decode_escapes() {
    let r = decode_chat_response("{\"response\":\"a\\\"b\\\\c\\nd\\u0041\\/\"}").unwrap();
    assert_eq!(r.response.unwrap().as_str(), "a\"b\\c\ndA/");
}

#[test]
fn decode_malformed() {
    for body in [
        "",
        "not json",
        "{",
        "{\"response\":\"hi\"",
        "{\"response\":\"hi\"} x",
        "{\"response\":1}",
        "{\"response\":\"a\\qb\"}",
        "{\"response\":\"\\udc00\"}",
        "{\"response\":\"\\ud83d\"}",
        "{\"response\":\"\\ud83dx\"}",
        "{\"response\":\"\\ud83d\\u0041\"}",
        "{\"x\":e}",
        "{\"x\":01}",
        "{\"x\":1.}",
        "{\"x\":-}",
        "{\"x\":1e}",
        "{\"x\":+1}",
        "{\"a\":[1}",
        "{\"a\":{\"b\"}}",
        "{\"a\":1,}",
    ] {
        assert_eq!(decode_chat_response(body).err(), Some(CodecError::ParseError), "{}", body);
    }
}

#[test]
fn decode_error_over_capacity() {
    let body = format!("{{\"error\":\"{}\"}}", "e".repeat(257));
    assert_eq!(decode_chat_response(&body).err(), Some(CodecError::ParseError));
    let body = format!("{{\"error\":\"{}\"}}", "e".repeat(256));
    assert_eq!(decode_chat_response(&body).unwrap().error.unwrap().len(), 256);
}

#[test]
fn round_trip_concrete() {
    let text = "quote \" and\nnewline";
    let req = encode_chat_request(text).unwrap();
    let reply = req.as_str().replace("{\"message\": ", "{\"response\":");
    let r = decode_chat_response(&reply).unwrap();
    assert_eq!(r.response.unwrap().as_str(), text);
}

#[test]
fn decode_unicode_escapes() {
    let r = decode_chat_response("{\"response\":\"caf\\u00e9 \\u20AC \\ud83d\\ude00\"}").unwrap();
    assert_eq!(r.response.unwrap().as_str(), "café € \u{1F600}");
}

#[test]
fn decode_json_numbers() {
    let r = decode_chat_response("{\"a\":0,\"b\":-12.5e+3,\"c\":7E2,\"d\":-0.0,\"response\":\"n\"}").unwrap();
    assert_eq!(r.response.unwrap().as_str(), "n");
}
