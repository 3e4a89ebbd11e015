use zeroclaw_ui::client::{ClientError, HttpMethod, HttpReply, TransportError, ZeroClawClient};

fn reply(status: u16, body: &str) -> Result<HttpReply, TransportError> {
    Ok(HttpReply { status, body: body.as_bytes().to_vec() })
}

#[test]
fn send_message_builds_post() {
    let c = ZeroClawClient::new("http://192.168.1.100:8080").unwrap();
    let q = c.send_message("hello").unwrap();
    assert_eq!(q.method, HttpMethod::Post);
    assert_eq!(q.url, "http://192.168.1.100:8080/webhook");
    assert_eq!(q.body, "{\"message\": \"hello\"}");
    assert_eq!(q.authorization, None);
}

#[test]
fn send_message_with_api_key() {
    let mut c = ZeroClawClient::new("http://h").unwrap();
    c.set_api_key("SECRET-REDACTED").unwrap();
    let q = c.send_message("hello").unwrap();
    assert_eq!(q.authorization.as_deref(), Some("Bearer SECRET-REDACTED"));
}

#[test]
fn send_message_ok_sets_connected() {
    let mut c = ZeroClawClient::new("http://h").unwrap();
    c.send_message("hello").unwrap();
    let r = c.receive_message_reply(reply(200, "{\"response\":\"hi\"}"));
    assert_eq!(r, Ok("hi".to_string()));
    assert!(c.is_connected());
}

#[test]
fn send_message_http_error_leaves_connected() {
    let mut c = ZeroClawClient::new("http://h").unwrap();
    c.send_message("hello").unwrap();
    assert_eq!(c.receive_message_reply(reply(500, "")), Err(ClientError::HttpError(500)));
    assert!(!c.is_connected());
    c.set_connected(true);
    assert_eq!(c.receive_message_reply(reply(500, "")), Err(ClientError::HttpError(500)));
    assert!(c.is_connected());
}

#[test]
fn send_message_server_error() {
    let mut c = ZeroClawClient::new("http://h").unwrap();
    c.send_message("hello").unwrap();
    let r = c.receive_message_reply(reply(200, "{\"error\":\"rate limited\"}"));
    assert_eq!(r, Err(ClientError::ServerError("rate limited".to_string())));
    assert!(!c.is_connected());
}

#[test]
fn reply_without_response() {
    let mut c = ZeroClawClient::new("http://h").unwrap();
    assert_eq!(c.receive_message_reply(reply(200, "{}")), Err(ClientError::NoResponse));
    assert_eq!(c.receive_message_reply(reply(200, "oops")), Err(ClientError::ParseError));
    let bad = Ok(HttpReply { status: 200, body: vec![0xff, 0xfe] });
    assert_eq!(c.receive_message_reply(bad), Err(ClientError::InvalidResponse));
    let big = format!("{{\"response\":\"{}\"}}", "a".repeat(2048));
    assert_eq!(c.receive_message_reply(reply(200, &big)), Err(ClientError::ResponseTooLarge));
    assert!(!c.is_connected());
}

#[test]
fn transport_failures_keep_connected() {
    let mut c = ZeroClawClient::new("http://h").unwrap();
    c.set_connected(true);
    let e = c.receive_message_reply(Err(TransportError::Connect("refused".to_string())));
    assert_eq!(e, Err(ClientError::ConnectionFailed("refused".to_string())));
    let e = c.receive_message_reply(Err(TransportError::Request("reset".to_string())));
    assert_eq!(e, Err(ClientError::RequestFailed("reset".to_string())));
    let e = c.receive_message_reply(Err(TransportError::Read("eof".to_string())));
    assert_eq!(e, Err(ClientError::ReadFailed("eof".to_string())));
    assert!(c.is_connected());
}

#[test]
fn health_check_resolves_to_bool() {
    let mut c = ZeroClawClient::new("http://h").unwrap();
    let q = c.check_connection().unwrap();
    assert_eq!(q.method, HttpMethod::Get);
    assert_eq!(q.url, "http://h/health");
    assert!(q.body.is_empty());
    assert!(c.receive_health_reply(Ok(200)));
    assert!(c.is_connected());
    assert!(!c.receive_health_reply(Ok(503)));
    assert!(!c.is_connected());
    c.set_connected(true);
    assert!(!c.receive_health_reply(Err(TransportError::Connect("down".to_string()))));
    assert!(!c.is_connected());
}

#[test]
fn url_and_key_limits() {
    assert_eq!(ZeroClawClient::new(&"u".repeat(129)).err(), Some(ClientError::UrlTooLong));
    let c = ZeroClawClient::new(&"u".repeat(125)).unwrap();
    assert_eq!(c.send_message("hi").err(), Some(ClientError::UrlTooLong));
    assert_eq!(c.check_connection().err(), Some(ClientError::UrlTooLong));
    let mut c = ZeroClawClient::new("http://h").unwrap();
    assert_eq!(c.set_api_key(&"k".repeat(65)), Err(ClientError::ApiKeyTooLong));
    assert_eq!(c.send_message(&"m".repeat(1010)).err(), Some(ClientError::MessageTooLong));
}

#[test]
fn error_messages() {
    assert_eq!(ClientError::HttpError(500).message(), "HTTP error: 500");
    assert_eq!(ClientError::ServerError("x".to_string()).message(), "Server error: x");
    assert_eq!(ClientError::NoResponse.message(), "No response from server");
}

#[test]
fn reply_with_non_ascii_escapes() {
    let mut c = ZeroClawClient::new("http://h").unwrap();
    assert_eq!(
        c.receive_message_reply(reply(200, "{\"x\":\"\\u00e9\"}")),
        Err(ClientError::NoResponse)
    );
    assert!(!c.is_connected());
    assert_eq!(
        c.receive_message_reply(reply(200, "{\"response\":\"\\u00e9\"}")),
        Ok("é".to_string())
    );
    assert!(c.is_connected());
}
