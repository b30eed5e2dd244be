use codex_logic::hooks::notify::{legacy_notify_json, AgentTurnEvent, NotifyEvent};
use codex_logic::json::JsonValue;
use serde_json::Value;

fn to_value(v: &JsonValue) -> Value {
    match v {
        JsonValue::Null => Value::Null,
        JsonValue::Bool(b) => Value::Bool(*b),
        JsonValue::Number(n) => serde_json::from_str(n).unwrap(),
        JsonValue::Str(s) => Value::String(s.clone()),
        JsonValue::Array(items) => Value::Array(items.iter().map(to_value).collect()),
        JsonValue::Object(m) => {
            let mut map = serde_json::Map::new();
            for (k, v) in m {
                map.insert(k.clone(), to_value(v));
            }
            Value::Object(map)
        }
    }
}

fn sample_event() -> AgentTurnEvent {
    AgentTurnEvent {
        thread_id: "b5f6c1c2-1111-2222-3333-444455556666".to_string(),
        turn_id: "12345".to_string(),
        input_messages: vec!["Rename `foo` to `bar` and update the callsites.".to_string()],
        last_assistant_message: Some("Rename complete and verified `cargo build` succeeds.".to_string()),
    }
}

fn expected_notification_json() -> Value {
    let mut m = serde_json::Map::new();
    m.insert("type".to_string(), Value::String("agent-turn-complete".to_string()));
    m.insert("thread-id".to_string(), Value::String("b5f6c1c2-1111-2222-3333-444455556666".to_string()));
    m.insert("turn-id".to_string(), Value::String("12345".to_string()));
    m.insert("cwd".to_string(), Value::String("/Users/example/project".to_string()));
    m.insert(
        "input-messages".to_string(),
        Value::Array(vec![Value::String("Rename `foo` to `bar` and update the callsites.".to_string())]),
    );
    m.insert(
        "last-assistant-message".to_string(),
        Value::String("Rename complete and verified `cargo build` succeeds.".to_string()),
    );
    Value::Object(m)
}

#[test]
fn test_user_notification() {
    let v = legacy_notify_json(&NotifyEvent::AfterAgent(sample_event()), "/Users/example/project")
        .expect("notification");
    let text = to_value(&v).to_string();
    let actual: Value = serde_json::from_str(&text).expect("parse serialized notification");
    assert_eq!(actual, expected_notification_json());
}

#[test]
fn legacy_notify_json_matches_historical_wire_shape() {
    let v = legacy_notify_json(&NotifyEvent::AfterAgent(sample_event()), "/Users/example/project")
        .expect("serialize legacy notify payload");
    assert_eq!(to_value(&v), expected_notification_json());
}

#[test]
fn legacy_notify_json_supports_stop_and_subagent_stop() {
    let stop = legacy_notify_json(&NotifyEvent::Stop(sample_event()), "/Users/example/project")
        .expect("serialize stop payload");
    let sub = legacy_notify_json(&NotifyEvent::SubagentStop(sample_event()), "/Users/example/project")
        .expect("serialize subagent_stop payload");
    assert_eq!(to_value(&stop), expected_notification_json());
    assert_eq!(to_value(&sub), expected_notification_json());
}

#[test]
fn legacy_notify_json_rejects_non_turn_events() {
    let error = legacy_notify_json(&NotifyEvent::Other, "/Users/example/project")
        .expect_err("session_start should be rejected");
    assert!(error.contains("legacy notify payload is only supported"));
}

#[test]
fn legacy_notify_json_writes_null_without_last_message() {
    let mut e = sample_event();
    e.last_assistant_message = None;
    let v = to_value(&legacy_notify_json(&NotifyEvent::Stop(e), "/p").unwrap());
    assert_eq!(v["last-assistant-message"], Value::Null);
}
