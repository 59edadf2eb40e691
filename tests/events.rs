use se_chat::connector::{Connector, ConnectorAction, ConnectorInput, ConnectorState};
use se_chat::event::{decode_event, encode_event, frame_events, read_frame, ChatEvent, ChatEventType};
use se_chat::json::{parse_json, JsonValue};

fn envelope() -> ChatEvent {
    ChatEvent {
        id: 141800943,
        message_id: 63567474,
        room_id: 1,
        room_name: "Sandbox".to_string(),
        timestamp: 1684029252,
        user_id: 526756,
        username: "Seggan".to_string(),
    }
}

#[test]
fn parse_json_builds_the_tree() {
    let v = parse_json("{\"a\":[1,-2,\"x\",null,true,1.5]}").unwrap();
    match v {
        JsonValue::Object(fields) => {
            assert_eq!(fields.len(), 1);
            assert_eq!(fields[0].0, "a");
            match &fields[0].1 {
                JsonValue::Array(items) => {
                    assert_eq!(items.len(), 6);
                    assert!(matches!(items[0], JsonValue::Uint(1)));
                    assert!(matches!(items[1], JsonValue::OtherNumber));
                    assert!(matches!(&items[2], JsonValue::Str(s) if s == "x"));
                    assert!(matches!(items[3], JsonValue::Null));
                    assert!(matches!(items[4], JsonValue::Bool(true)));
                    assert!(matches!(items[5], JsonValue::OtherNumber));
                }
                _ => panic!("expected an array"),
            }
        }
        _ => panic!("expected an object"),
    }
    assert!(parse_json("{not json").is_none());
}

#[test]
fn decodes_the_three_shapes() {
    let posted = parse_json("{\"content\":\"test\",\"event_type\":1,\"id\":141800943,\"message_id\":63567474,\"room_id\":1,\"room_name\":\"Sandbox\",\"time_stamp\":1684029252,\"user_id\":526756,\"user_name\":\"Seggan\"}").unwrap();
    assert_eq!(
        decode_event(&posted),
        Some(ChatEventType::Message { event: envelope(), content: "test".to_string() })
    );
    let edit = parse_json("{\"content\":\"test (edit again)\",\"event_type\":2,\"id\":141800943,\"message_edits\":1,\"message_id\":63567474,\"room_id\":1,\"room_name\":\"Sandbox\",\"time_stamp\":1684029252,\"user_id\":526756,\"user_name\":\"Seggan\"}").unwrap();
    assert_eq!(
        decode_event(&edit),
        Some(ChatEventType::Edit {
            event: envelope(),
            message_edits: 1,
            content: "test (edit again)".to_string()
        })
    );
    let deleted = parse_json("{\"event_type\":10,\"id\":141800943,\"message_id\":63567474,\"room_id\":1,\"room_name\":\"Sandbox\",\"time_stamp\":1684029252,\"user_id\":526756,\"user_name\":\"Seggan\"}").unwrap();
    assert_eq!(decode_event(&deleted), Some(ChatEventType::Delete { event: envelope() }));
}

#[test]
fn missing_envelope_field_is_no_event() {
    let v = parse_json("{\"id\":1,\"message_id\":2,\"room_id\":1,\"room_name\":\"S\",\"user_id\":3,\"user_name\":\"u\"}").unwrap();
    assert_eq!(decode_event(&v), None);
    let wrong_kind = parse_json("{\"id\":\"1\",\"message_id\":2,\"room_id\":1,\"room_name\":\"S\",\"time_stamp\":4,\"user_id\":3,\"user_name\":\"u\"}").unwrap();
    assert_eq!(decode_event(&wrong_kind), None);
    assert_eq!(decode_event(&JsonValue::Null), None);
}

#[test]
fn content_of_another_kind_reads_as_deletion() {
    let v = parse_json("{\"id\":1,\"message_id\":2,\"room_id\":1,\"room_name\":\"S\",\"time_stamp\":4,\"user_id\":3,\"user_name\":\"u\",\"content\":null,\"message_edits\":2}").unwrap();
    assert!(matches!(decode_event(&v), Some(ChatEventType::Delete { .. })));
}

#[test]
fn encode_then_decode_gives_the_event_back() {
    let events = vec![
        ChatEventType::Edit { event: envelope(), message_edits: 3, content: "e".to_string() },
        ChatEventType::Message { event: envelope(), content: "m".to_string() },
        ChatEventType::Delete { event: envelope() },
    ];
    for e in events {
        let v = encode_event(&e);
        assert_eq!(decode_event(&v), Some(e));
    }
}

#[test]
fn frame_for_room_one_gives_one_event() {
    let text = "{\"r1\":{\"e\":[{\"id\":1,\"message_id\":100,\"room_id\":1,\"room_name\":\"Sandbox\",\"time_stamp\":1684029252,\"user_id\":526756,\"user_name\":\"Seggan\",\"content\":\"hi\"}]}}";
    let events = read_frame(text, 1).unwrap();
    assert_eq!(events.len(), 1);
    match &events[0] {
        ChatEventType::Message { event, content } => {
            assert_eq!(event.message_id, 100);
            assert_eq!(content, "hi");
            assert_eq!(event.username, "Seggan");
        }
        _ => panic!("expected a posted event"),
    }
}

#[test]
fn frame_with_two_events_gives_both_in_order() {
    let text = "{\"r7\":{\"e\":[{\"id\":1,\"message_id\":100,\"room_id\":7,\"room_name\":\"R\",\"time_stamp\":5,\"user_id\":9,\"user_name\":\"a\",\"content\":\"one\"},{\"id\":2,\"message_id\":101,\"room_id\":7,\"room_name\":\"R\",\"time_stamp\":6,\"user_id\":9,\"user_name\":\"a\",\"content\":\"two\"}]}}";
    let events = read_frame(text, 7).unwrap();
    assert_eq!(events.len(), 2);
    assert!(matches!(&events[0], ChatEventType::Message { content, .. } if content == "one"));
    assert!(matches!(&events[1], ChatEventType::Message { content, .. } if content == "two"));
}

#[test]
fn frame_for_other_room_gives_nothing() {
    let text = "{\"r17\":{\"e\":[{\"id\":1}]},\"r2\":{}}";
    assert_eq!(read_frame(text, 1), Some(vec![]));
    assert_eq!(read_frame(text, 2), Some(vec![]));
    assert_eq!(read_frame(text, 17), None);
}

#[test]
fn malformed_frames_are_refused() {
    assert_eq!(read_frame("[1,2]", 1), None);
    assert_eq!(read_frame("{\"r1\":3}", 1), None);
    assert_eq!(read_frame("{\"r1\":{\"e\":{}}}", 1), None);
    assert_eq!(read_frame("nonsense", 1), None);
    assert_eq!(frame_events(&JsonValue::Null, 1), None);
}

#[test]
fn connector_negotiates_then_opens() {
    let mut c = Connector::new(12, "key".to_string());
    assert_eq!(c.state(), ConnectorState::Negotiating);
    let req = c.negotiation_request();
    assert_eq!(req.url, "https://chat.stackexchange.com/ws-auth");
    assert_eq!(req.referer, None);
    assert_eq!(
        req.fields,
        vec![("roomid".to_string(), "12".to_string()), ("fkey".to_string(), "key".to_string())]
    );
    let action = c.step(ConnectorInput::Negotiated {
        body: "{\"url\":\"wss://example.test/events\"}".to_string(),
        now: 1684029252,
    });
    assert!(matches!(action, ConnectorAction::Open(ref u) if u == "wss://example.test/events?l=1684029252"));
    assert_eq!(c.state(), ConnectorState::Connected);
}

#[test]
fn connector_retries_failed_negotiation() {
    let mut c = Connector::new(1, "key".to_string());
    assert!(matches!(c.step(ConnectorInput::NegotiationFailed), ConnectorAction::Negotiate));
    assert_eq!(c.state(), ConnectorState::Negotiating);
    let action = c.step(ConnectorInput::Negotiated { body: "not json".to_string(), now: 1 });
    assert!(matches!(action, ConnectorAction::Negotiate));
    let action = c.step(ConnectorInput::Negotiated { body: "{\"link\":\"x\"}".to_string(), now: 1 });
    assert!(matches!(action, ConnectorAction::Negotiate));
    assert_eq!(c.state(), ConnectorState::Negotiating);
}

#[test]
fn connector_goes_back_to_negotiating_on_close_or_bad_frame() {
    let mut c = Connector::new(1, "key".to_string());
    c.step(ConnectorInput::Negotiated { body: "{\"url\":\"wss://a\"}".to_string(), now: 2 });
    assert!(matches!(c.step(ConnectorInput::OtherFrame), ConnectorAction::Read));
    let action = c.step(ConnectorInput::Frame("{\"r2\":{}}".to_string()));
    assert!(matches!(action, ConnectorAction::Dispatch(ref v) if v.is_empty()));
    assert_eq!(c.state(), ConnectorState::Connected);
    assert!(matches!(c.step(ConnectorInput::Frame("[]".to_string())), ConnectorAction::Negotiate));
    assert_eq!(c.state(), ConnectorState::Negotiating);
    c.step(ConnectorInput::Negotiated { body: "{\"url\":\"wss://a\"}".to_string(), now: 3 });
    assert!(matches!(c.step(ConnectorInput::Closed), ConnectorAction::Negotiate));
    c.step(ConnectorInput::Negotiated { body: "{\"url\":\"wss://a\"}".to_string(), now: 4 });
    assert!(matches!(c.step(ConnectorInput::StreamError), ConnectorAction::Negotiate));
    assert_eq!(c.state(), ConnectorState::Negotiating);
}
