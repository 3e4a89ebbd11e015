use zeroclaw_ui::pins::Pins;
use zeroclaw_ui::protocol::{decimal_text, ChatMessage, MessageRole, UiResponse, UiStatus};

#[test]
fn message_timestamp_is_decimal_seconds() {
    let m = ChatMessage::new(MessageRole::User, "hi", 1234).unwrap();
    assert_eq!(m.role, MessageRole::User);
    assert_eq!(m.content.as_str(), "hi");
    assert_eq!(m.timestamp.as_str(), "1234");
    let m = ChatMessage::new(MessageRole::System, "", u64::MAX).unwrap();
    assert_eq!(m.timestamp.as_str(), "18446744073709551615");
}

#[test]
fn message_content_limit() {
    assert!(ChatMessage::new(MessageRole::Assistant, &"c".repeat(513), 0).is_err());
    assert!(ChatMessage::new(MessageRole::Assistant, &"c".repeat(512), 0).is_ok());
}

#[test]
fn decimal_of_small_numbers() {
    assert_eq!(decimal_text(0), "0");
    assert_eq!(decimal_text(9), "9");
    assert_eq!(decimal_text(10), "10");
}

#[test]
fn ui_responses() {
    assert!(UiResponse::ok().success);
    let r = UiResponse::err("boom");
    assert!(!r.success);
    assert_eq!(r.error.unwrap().as_str(), "boom");
    let r = UiResponse::with_status(UiStatus::default());
    assert!(r.status.is_some());
    let r = UiResponse::with_messages(vec![]);
    assert_eq!(r.messages.map(|m| m.len()), Some(0));
}

#[test]
fn default_pins() {
    let p = Pins::default();
    assert_eq!(p.spi_clk, 6);
    assert_eq!(p.touch_int, 11);
}
