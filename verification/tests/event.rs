use omnisec_agent::error::AgentError;
use omnisec_agent::event::{frame_payload, Enrichment, Event, LEVEL_INFO};
use omnisec_agent::text::decode_line;

fn place() -> Enrichment {
    Enrichment::new(Some("web-1".to_string()), Some("billing".to_string()))
}

fn event(message: &str) -> Event {
    Event::new("2024-05-01T12:00:00+00:00".to_string(), message.to_string(), &place())
}

#[test]
fn an_event_carries_the_line_the_time_and_the_place() {
    let event = event("disk is full");
    assert_eq!(event.timestamp(), "2024-05-01T12:00:00+00:00");
    assert_eq!(event.level(), "INFO");
    assert_eq!(event.message(), "disk is full");
    assert_eq!(event.host(), Some("web-1"));
    assert_eq!(event.service(), Some("billing"));
    assert_eq!(LEVEL_INFO, "INFO");
}

#[test]
fn the_place_may_be_unknown() {
    let nowhere = Enrichment::new(None, None);
    assert_eq!(nowhere.host(), None);
    assert_eq!(nowhere.service(), None);
    let event = Event::new("t".to_string(), "m".to_string(), &nowhere);
    assert_eq!(event.host(), None);
    assert_eq!(event.service(), None);
    assert_eq!(event.level(), "INFO");
    assert_eq!(
        event.to_json(),
        Ok("{\"timestamp\":\"t\",\"level\":\"INFO\",\"message\":\"m\"}".to_string())
    );
}

#[test]
fn the_payload_is_one_json_object_in_the_order_of_the_fields() {
    assert_eq!(
        event("hello").to_json(),
        Ok(concat_all(&[
            "{\"timestamp\":\"2024-05-01T12:00:00+00:00\",",
            "\"level\":\"INFO\",",
            "\"message\":\"hello\",",
            "\"host\":\"web-1\",",
            "\"service\":\"billing\"}",
        ]))
    );
}

fn concat_all(parts: &[&str]) -> String {
    let mut all = String::new();
    for part in parts {
        all.push_str(part);
    }
    all
}

#[test]
fn only_the_host_or_only_the_service_may_be_given() {
    let host_only = Enrichment::new(Some("h".to_string()), None);
    let service_only = Enrichment::new(None, Some("s".to_string()));
    assert_eq!(
        Event::new("t".to_string(), "m".to_string(), &host_only).to_json(),
        Ok("{\"timestamp\":\"t\",\"level\":\"INFO\",\"message\":\"m\",\"host\":\"h\"}".to_string())
    );
    assert_eq!(
        Event::new("t".to_string(), "m".to_string(), &service_only).to_json(),
        Ok("{\"timestamp\":\"t\",\"level\":\"INFO\",\"message\":\"m\",\"service\":\"s\"}"
            .to_string())
    );
}

#[test]
fn the_message_is_escaped_as_json_asks_and_not_otherwise_changed() {
    let payload = event("say \"hi\" \\ tab\there \u{1} caf\u{e9} \u{1f600}").to_json().unwrap();
    assert!(payload.contains(
        "\"message\":\"say \\\"hi\\\" \\\\ tab\\there \\u0001 caf\u{e9} \u{1f600}\""
    ));
    assert!(!payload.contains('\n'));
    let multi = event("a\nb\r").to_json().unwrap();
    assert!(multi.contains("\"message\":\"a\\nb\\r\""));
    assert!(!multi.contains('\n'));
}

#[test]
fn the_payload_reads_back_as_the_event() {
    let message = "say \"hi\" \\ tab\there \u{1} caf\u{e9} \u{1f600} {\"level\":\"WARN\"}";
    let payload = event(message).to_json().unwrap();
    let value: serde_json::Value = serde_json::from_str(&payload).unwrap();
    let object = value.as_object().unwrap();
    let mut keys: Vec<&str> = object.keys().map(|key| key.as_str()).collect();
    keys.sort();
    assert_eq!(keys, vec!["host", "level", "message", "service", "timestamp"]);
    assert_eq!(object["timestamp"].as_str(), Some("2024-05-01T12:00:00+00:00"));
    assert_eq!(object["level"].as_str(), Some("INFO"));
    assert_eq!(object["message"].as_str(), Some(message));
    assert_eq!(object["host"].as_str(), Some("web-1"));
    assert_eq!(object["service"].as_str(), Some("billing"));
}

#[test]
fn a_payload_without_a_place_reads_back_with_three_fields() {
    let nowhere = Enrichment::new(None, None);
    let payload = Event::new("when".to_string(), "what".to_string(), &nowhere).to_json().unwrap();
    let value: serde_json::Value = serde_json::from_str(&payload).unwrap();
    let object = value.as_object().unwrap();
    let mut keys: Vec<&str> = object.keys().map(|key| key.as_str()).collect();
    keys.sort();
    assert_eq!(keys, vec!["level", "message", "timestamp"]);
    assert_eq!(object["level"].as_str(), Some("INFO"));
    assert_eq!(object["message"].as_str(), Some("what"));
    assert_eq!(object["timestamp"].as_str(), Some("when"));
}

#[test]
fn an_empty_message_is_an_empty_string() {
    let payload = event("").to_json().unwrap();
    assert!(payload.contains("\"message\":\"\","));
}

#[test]
fn serde_json_takes_every_string() {
    let odd = "\u{0}\u{7f}\u{ffff}\u{10ffff}";
    let payload = Event::new(odd.to_string(), odd.to_string(), &place()).to_json();
    assert_ne!(payload, Err(AgentError::Serialization));
    let value: serde_json::Value = serde_json::from_str(&payload.unwrap()).unwrap();
    assert_eq!(value["message"].as_str(), Some(odd));
    assert_eq!(value["timestamp"].as_str(), Some(odd));
}

#[test]
fn the_frame_puts_json_values_between_the_member_names() {
    assert_eq!(
        frame_payload("1", "2", "3", Some("4"), Some("5")),
        "{\"timestamp\":1,\"level\":2,\"message\":3,\"host\":4,\"service\":5}"
    );
    assert_eq!(
        frame_payload("\"a\"", "\"b\"", "\"c\"", None, None),
        "{\"timestamp\":\"a\",\"level\":\"b\",\"message\":\"c\"}"
    );
    assert_eq!(
        frame_payload("", "", "", None, Some("")),
        "{\"timestamp\":,\"level\":,\"message\":,\"service\":}"
    );
    assert_eq!(
        frame_payload("", "", "", Some("x"), None),
        "{\"timestamp\":,\"level\":,\"message\":,\"host\":x}"
    );
}

#[test]
fn lines_are_text_where_they_are_utf8() {
    assert_eq!(decode_line(b"plain"), Some("plain".to_string()));
    assert_eq!(
        decode_line("caf\u{e9} \u{1f600}".as_bytes()),
        Some("caf\u{e9} \u{1f600}".to_string())
    );
    assert_eq!(decode_line(b""), Some(String::new()));
    assert_eq!(decode_line(&[0xff]), None);
    assert_eq!(decode_line(&[b'a', 0xc3]), None);
    assert_eq!(decode_line(&[0xed, 0xa0, 0x80]), None);
    assert_eq!(decode_line(&[0xc0, 0x80]), None);
}
