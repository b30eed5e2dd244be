//! The payload of the legacy `notify` command: a JSON description of a finished agent turn,
//! handed to the command as its last argument.
use crate::json::JsonValue;
use crate::text::owned;
use vstd::prelude::*;

verus! {

/// A finished agent turn: its thread, its turn, the user's messages that started it and the
/// assistant's last message.
#[derive(Debug)]
pub struct AgentTurnEvent {
    pub thread_id: String,
    pub turn_id: String,
    pub input_messages: Vec<String>,
    pub last_assistant_message: Option<String>,
}

/// The events a legacy notification is asked for.
#[derive(Debug)]
pub enum NotifyEvent {
    AfterAgent(AgentTurnEvent),
    Stop(AgentTurnEvent),
    SubagentStop(AgentTurnEvent),
    /// Any other event.
    Other,
}

/// The message of refusing a notification for another event.
pub const LEGACY_NOTIFY_UNSUPPORTED: &'static str = "legacy notify payload is only supported for stop/after_agent";

/// `v` is the JSON string `s`.
pub open spec fn is_json_str(v: JsonValue, s: Seq<char>) -> bool {
    v matches JsonValue::Str(t) && t@ == s
}

/// `v` is the notification of the turn `e` in the directory `cwd`: an object with, in order,
/// `type` (`agent-turn-complete`), `thread-id`, `turn-id`, `cwd`, `input-messages` (the
/// messages, as an array of strings) and `last-assistant-message` (a string, or null).
pub open spec fn is_turn_notification(v: JsonValue, e: AgentTurnEvent, cwd: Seq<char>) -> bool {
    v matches JsonValue::Object(m) && {
        &&& m@.len() == 6
        &&& m@[0].0@ == "type"@ && is_json_str(m@[0].1, "agent-turn-complete"@)
        &&& m@[1].0@ == "thread-id"@ && is_json_str(m@[1].1, e.thread_id@)
        &&& m@[2].0@ == "turn-id"@ && is_json_str(m@[2].1, e.turn_id@)
        &&& m@[3].0@ == "cwd"@ && is_json_str(m@[3].1, cwd)
        &&& m@[4].0@ == "input-messages"@
        &&& m@[4].1 matches JsonValue::Array(items) && items@.len() == e.input_messages@.len()
            && forall|i: int|
            0 <= i < items@.len() ==> is_json_str(#[trigger] items@[i], e.input_messages@[i]@)
        &&& m@[5].0@ == "last-assistant-message"@
        &&& match e.last_assistant_message {
            Some(x) => is_json_str(m@[5].1, x@),
            None => m@[5].1 is Null,
        }
    }
}

fn turn_notification(e: &AgentTurnEvent, cwd: &str) -> (r: JsonValue)
    ensures
        is_turn_notification(r, *e, cwd@),
{
    let mut items: Vec<JsonValue> = Vec::new();
    let mut i: usize = 0;
    while i < e.input_messages.len()
        invariant
            i <= e.input_messages@.len(),
            items@.len() == i,
            forall|k: int| 0 <= k < i ==> is_json_str(#[trigger] items@[k], e.input_messages@[k]@),
        decreases e.input_messages@.len() - i,
    {
        items.push(JsonValue::Str(e.input_messages[i].clone()));
        i = i + 1;
    }
    let last = match &e.last_assistant_message {
        Some(x) => JsonValue::Str(x.clone()),
        None => JsonValue::Null,
    };
    let mut m: Vec<(String, JsonValue)> = Vec::new();
    m.push((owned("type"), JsonValue::Str(owned("agent-turn-complete"))));
    m.push((owned("thread-id"), JsonValue::Str(e.thread_id.clone())));
    m.push((owned("turn-id"), JsonValue::Str(e.turn_id.clone())));
    m.push((owned("cwd"), JsonValue::Str(owned(cwd))));
    m.push((owned("input-messages"), JsonValue::Array(items)));
    m.push((owned("last-assistant-message"), last));
    JsonValue::Object(m)
}

/// The legacy notification of an event: for a finished turn (after an agent, on stop or on a
/// subagent's stop) the turn's notification in `cwd`; any other event is refused.
pub fn legacy_notify_json(event: &NotifyEvent, cwd: &str) -> (r: Result<JsonValue, String>)
    ensures
        match *event {
            NotifyEvent::AfterAgent(e) => r matches Ok(v) && is_turn_notification(v, e, cwd@),
            NotifyEvent::Stop(e) => r matches Ok(v) && is_turn_notification(v, e, cwd@),
            NotifyEvent::SubagentStop(e) => r matches Ok(v) && is_turn_notification(v, e, cwd@),
            NotifyEvent::Other => r matches Err(m) && m@ == LEGACY_NOTIFY_UNSUPPORTED@,
        },
{
    match event {
        NotifyEvent::AfterAgent(e) => Ok(turn_notification(e, cwd)),
        NotifyEvent::Stop(e) => Ok(turn_notification(e, cwd)),
        NotifyEvent::SubagentStop(e) => Ok(turn_notification(e, cwd)),
        NotifyEvent::Other => Err(owned(LEGACY_NOTIFY_UNSUPPORTED)),
    }
}

} // verus!
