//! Hook events, payloads and results.
use crate::json::JsonValue;
use vstd::prelude::*;

verus! {

/// A lifecycle event that hooks can observe. Paths are held as text.
#[derive(Debug)]
pub enum HookEvent {
    SessionStart { source: String, model: String, agent_type: Option<String> },
    SessionEnd { reason: String },
    UserPromptSubmit { prompt: String },
    PreToolUse { tool_name: String, tool_input: JsonValue, tool_use_id: String },
    PermissionRequest {
        tool_name: String,
        tool_input: JsonValue,
        tool_use_id: String,
        permission_suggestions: Option<JsonValue>,
    },
    Notification { message: String, notification_type: String },
    PostToolUse {
        tool_name: String,
        tool_input: JsonValue,
        tool_response: JsonValue,
        tool_use_id: String,
    },
    PostToolUseFailure {
        tool_name: String,
        tool_input: JsonValue,
        tool_use_id: String,
        error: String,
        is_interrupt: Option<bool>,
    },
    Stop { stop_hook_active: bool, last_assistant_message: Option<String> },
    TeammateIdle { teammate_name: String, team_name: String },
    TaskCompleted {
        task_id: String,
        task_subject: String,
        teammate_name: Option<String>,
        team_name: Option<String>,
    },
    ConfigChange { source: String, file_path: Option<String> },
    SubagentStart { agent_id: String, agent_type: String },
    SubagentStop {
        stop_hook_active: bool,
        agent_id: String,
        agent_type: String,
        agent_transcript_path: Option<String>,
        last_assistant_message: Option<String>,
    },
    PreCompact { trigger: String, custom_instructions: Option<String> },
    WorktreeCreate { repo_path: String, worktree_path: String },
    WorktreeRemove { repo_path: String, worktree_path: String },
}

/// What a hook command receives on its standard input.
#[derive(Debug)]
pub struct HookPayload {
    pub session_id: String,
    pub transcript_path: Option<String>,
    pub cwd: String,
    pub permission_mode: String,
    pub hook_event: HookEvent,
}

/// The tool name an event carries, for the tool events.
pub open spec fn spec_tool_name(e: HookEvent) -> Option<Seq<char>> {
    match e {
        HookEvent::PreToolUse { tool_name, .. } => Some(tool_name@),
        HookEvent::PermissionRequest { tool_name, .. } => Some(tool_name@),
        HookEvent::PostToolUse { tool_name, .. } => Some(tool_name@),
        HookEvent::PostToolUseFailure { tool_name, .. } => Some(tool_name@),
        _ => None,
    }
}

/// The prompt an event carries, for prompt submission.
pub open spec fn spec_user_prompt(e: HookEvent) -> Option<Seq<char>> {
    match e {
        HookEvent::UserPromptSubmit { prompt } => Some(prompt@),
        _ => None,
    }
}

/// The text that a hook's `matcher` pattern is held against: the tool name for tool events,
/// the source for session start and configuration changes, the reason for session end, the
/// notification type, the agent type for subagents, the trigger for compaction.
pub open spec fn spec_matcher_text(e: HookEvent) -> Option<Seq<char>> {
    match e {
        HookEvent::PreToolUse { tool_name, .. } => Some(tool_name@),
        HookEvent::PermissionRequest { tool_name, .. } => Some(tool_name@),
        HookEvent::PostToolUse { tool_name, .. } => Some(tool_name@),
        HookEvent::PostToolUseFailure { tool_name, .. } => Some(tool_name@),
        HookEvent::SessionStart { source, .. } => Some(source@),
        HookEvent::SessionEnd { reason } => Some(reason@),
        HookEvent::Notification { notification_type, .. } => Some(notification_type@),
        HookEvent::SubagentStart { agent_type, .. } => Some(agent_type@),
        HookEvent::SubagentStop { agent_type, .. } => Some(agent_type@),
        HookEvent::PreCompact { trigger, .. } => Some(trigger@),
        HookEvent::ConfigChange { source, .. } => Some(source@),
        _ => None,
    }
}

impl HookEvent {
    /// The tool name of a tool event, none for other events.
    pub fn tool_name_for_matcher(&self) -> (r: Option<&str>)
        ensures
            match r {
                Some(s) => spec_tool_name(*self) == Some(s@),
                None => spec_tool_name(*self) is None,
            },
    {
        match self {
            HookEvent::PreToolUse { tool_name, .. } => Some(tool_name.as_str()),
            HookEvent::PermissionRequest { tool_name, .. } => Some(tool_name.as_str()),
            HookEvent::PostToolUse { tool_name, .. } => Some(tool_name.as_str()),
            HookEvent::PostToolUseFailure { tool_name, .. } => Some(tool_name.as_str()),
            _ => None,
        }
    }

    /// The prompt of a prompt submission, none for other events.
    pub fn user_prompt_for_matcher(&self) -> (r: Option<&str>)
        ensures
            match r {
                Some(s) => spec_user_prompt(*self) == Some(s@),
                None => spec_user_prompt(*self) is None,
            },
    {
        match self {
            HookEvent::UserPromptSubmit { prompt } => Some(prompt.as_str()),
            _ => None,
        }
    }

    /// The text that a `matcher` pattern is held against, none where the event has none.
    pub fn matcher_text_for_matcher(&self) -> (r: Option<&str>)
        ensures
            match r {
                Some(s) => spec_matcher_text(*self) == Some(s@),
                None => spec_matcher_text(*self) is None,
            },
    {
        match self {
            HookEvent::PreToolUse { tool_name, .. } => Some(tool_name.as_str()),
            HookEvent::PermissionRequest { tool_name, .. } => Some(tool_name.as_str()),
            HookEvent::PostToolUse { tool_name, .. } => Some(tool_name.as_str()),
            HookEvent::PostToolUseFailure { tool_name, .. } => Some(tool_name.as_str()),
            HookEvent::SessionStart { source, .. } => Some(source.as_str()),
            HookEvent::SessionEnd { reason } => Some(reason.as_str()),
            HookEvent::Notification { notification_type, .. } => Some(notification_type.as_str()),
            HookEvent::SubagentStart { agent_type, .. } => Some(agent_type.as_str()),
            HookEvent::SubagentStop { agent_type, .. } => Some(agent_type.as_str()),
            HookEvent::PreCompact { trigger, .. } => Some(trigger.as_str()),
            HookEvent::ConfigChange { source, .. } => Some(source.as_str()),
            _ => None,
        }
    }

    /// The kind of this event.
    pub fn key(&self) -> (k: HookEventKey)
        ensures
            k == spec_event_key(*self),
    {
        match self {
            HookEvent::SessionStart { .. } => HookEventKey::SessionStart,
            HookEvent::SessionEnd { .. } => HookEventKey::SessionEnd,
            HookEvent::UserPromptSubmit { .. } => HookEventKey::UserPromptSubmit,
            HookEvent::PreToolUse { .. } => HookEventKey::PreToolUse,
            HookEvent::PermissionRequest { .. } => HookEventKey::PermissionRequest,
            HookEvent::Notification { .. } => HookEventKey::Notification,
            HookEvent::PostToolUse { .. } => HookEventKey::PostToolUse,
            HookEvent::PostToolUseFailure { .. } => HookEventKey::PostToolUseFailure,
            HookEvent::Stop { .. } => HookEventKey::Stop,
            HookEvent::TeammateIdle { .. } => HookEventKey::TeammateIdle,
            HookEvent::TaskCompleted { .. } => HookEventKey::TaskCompleted,
            HookEvent::ConfigChange { .. } => HookEventKey::ConfigChange,
            HookEvent::SubagentStart { .. } => HookEventKey::SubagentStart,
            HookEvent::SubagentStop { .. } => HookEventKey::SubagentStop,
            HookEvent::PreCompact { .. } => HookEventKey::PreCompact,
            HookEvent::WorktreeCreate { .. } => HookEventKey::WorktreeCreate,
            HookEvent::WorktreeRemove { .. } => HookEventKey::WorktreeRemove,
        }
    }
}

/// The kind of an event.
pub open spec fn spec_event_key(e: HookEvent) -> HookEventKey {
    match e {
        HookEvent::SessionStart { .. } => HookEventKey::SessionStart,
        HookEvent::SessionEnd { .. } => HookEventKey::SessionEnd,
        HookEvent::UserPromptSubmit { .. } => HookEventKey::UserPromptSubmit,
        HookEvent::PreToolUse { .. } => HookEventKey::PreToolUse,
        HookEvent::PermissionRequest { .. } => HookEventKey::PermissionRequest,
        HookEvent::Notification { .. } => HookEventKey::Notification,
        HookEvent::PostToolUse { .. } => HookEventKey::PostToolUse,
        HookEvent::PostToolUseFailure { .. } => HookEventKey::PostToolUseFailure,
        HookEvent::Stop { .. } => HookEventKey::Stop,
        HookEvent::TeammateIdle { .. } => HookEventKey::TeammateIdle,
        HookEvent::TaskCompleted { .. } => HookEventKey::TaskCompleted,
        HookEvent::ConfigChange { .. } => HookEventKey::ConfigChange,
        HookEvent::SubagentStart { .. } => HookEventKey::SubagentStart,
        HookEvent::SubagentStop { .. } => HookEventKey::SubagentStop,
        HookEvent::PreCompact { .. } => HookEventKey::PreCompact,
        HookEvent::WorktreeCreate { .. } => HookEventKey::WorktreeCreate,
        HookEvent::WorktreeRemove { .. } => HookEventKey::WorktreeRemove,
    }
}

/// The kind of an event, as the configuration names it.
#[derive(Debug, Clone, Copy, PartialEq, Eq, Structural)]
pub enum HookEventKey {
    SessionStart,
    SessionEnd,
    UserPromptSubmit,
    PreToolUse,
    PermissionRequest,
    Notification,
    PostToolUse,
    PostToolUseFailure,
    Stop,
    TeammateIdle,
    TaskCompleted,
    ConfigChange,
    SubagentStart,
    SubagentStop,
    PreCompact,
    WorktreeCreate,
    WorktreeRemove,
}

/// The configuration name of an event kind.
pub open spec fn spec_key_name(k: HookEventKey) -> Seq<char> {
    match k {
        HookEventKey::SessionStart => "session_start"@,
        HookEventKey::SessionEnd => "session_end"@,
        HookEventKey::UserPromptSubmit => "user_prompt_submit"@,
        HookEventKey::PreToolUse => "pre_tool_use"@,
        HookEventKey::PermissionRequest => "permission_request"@,
        HookEventKey::Notification => "notification"@,
        HookEventKey::PostToolUse => "post_tool_use"@,
        HookEventKey::PostToolUseFailure => "post_tool_use_failure"@,
        HookEventKey::Stop => "stop"@,
        HookEventKey::TeammateIdle => "teammate_idle"@,
        HookEventKey::TaskCompleted => "task_completed"@,
        HookEventKey::ConfigChange => "config_change"@,
        HookEventKey::SubagentStart => "subagent_start"@,
        HookEventKey::SubagentStop => "subagent_stop"@,
        HookEventKey::PreCompact => "pre_compact"@,
        HookEventKey::WorktreeCreate => "worktree_create"@,
        HookEventKey::WorktreeRemove => "worktree_remove"@,
    }
}

/// The position of an event kind in the configuration's order.
pub open spec fn spec_key_index(k: HookEventKey) -> int {
    match k {
        HookEventKey::SessionStart => 0,
        HookEventKey::SessionEnd => 1,
        HookEventKey::UserPromptSubmit => 2,
        HookEventKey::PreToolUse => 3,
        HookEventKey::PermissionRequest => 4,
        HookEventKey::Notification => 5,
        HookEventKey::PostToolUse => 6,
        HookEventKey::PostToolUseFailure => 7,
        HookEventKey::Stop => 8,
        HookEventKey::TeammateIdle => 9,
        HookEventKey::TaskCompleted => 10,
        HookEventKey::ConfigChange => 11,
        HookEventKey::SubagentStart => 12,
        HookEventKey::SubagentStop => 13,
        HookEventKey::PreCompact => 14,
        HookEventKey::WorktreeCreate => 15,
        HookEventKey::WorktreeRemove => 16,
    }
}

/// The number of event kinds.
pub const EVENT_KEY_COUNT: usize = 17;

/// The event kind at a position of the configuration's order.
pub open spec fn spec_key_at(i: int) -> HookEventKey {
    if i == 0 {
        HookEventKey::SessionStart
    } else if i == 1 {
        HookEventKey::SessionEnd
    } else if i == 2 {
        HookEventKey::UserPromptSubmit
    } else if i == 3 {
        HookEventKey::PreToolUse
    } else if i == 4 {
        HookEventKey::PermissionRequest
    } else if i == 5 {
        HookEventKey::Notification
    } else if i == 6 {
        HookEventKey::PostToolUse
    } else if i == 7 {
        HookEventKey::PostToolUseFailure
    } else if i == 8 {
        HookEventKey::Stop
    } else if i == 9 {
        HookEventKey::TeammateIdle
    } else if i == 10 {
        HookEventKey::TaskCompleted
    } else if i == 11 {
        HookEventKey::ConfigChange
    } else if i == 12 {
        HookEventKey::SubagentStart
    } else if i == 13 {
        HookEventKey::SubagentStop
    } else if i == 14 {
        HookEventKey::PreCompact
    } else if i == 15 {
        HookEventKey::WorktreeCreate
    } else {
        HookEventKey::WorktreeRemove
    }
}

/// Events on which exit code 2 blocks.
pub open spec fn spec_supports_exit_2_block(k: HookEventKey) -> bool {
    match k {
        HookEventKey::UserPromptSubmit | HookEventKey::PreToolUse | HookEventKey::PermissionRequest
        | HookEventKey::Stop | HookEventKey::TeammateIdle | HookEventKey::TaskCompleted
        | HookEventKey::ConfigChange | HookEventKey::SubagentStop => true,
        _ => false,
    }
}

/// Events on which decisions in the output JSON are honoured.
pub open spec fn spec_supports_output_decisions(k: HookEventKey) -> bool {
    match k {
        HookEventKey::UserPromptSubmit | HookEventKey::PreToolUse | HookEventKey::PermissionRequest
        | HookEventKey::Stop | HookEventKey::SubagentStop | HookEventKey::ConfigChange => true,
        _ => false,
    }
}

/// Events that accept prompt and agent hooks.
pub open spec fn spec_supports_prompt_and_agent_hooks(k: HookEventKey) -> bool {
    match k {
        HookEventKey::PermissionRequest | HookEventKey::PostToolUse
        | HookEventKey::PostToolUseFailure | HookEventKey::PreToolUse | HookEventKey::Stop
        | HookEventKey::SubagentStop | HookEventKey::TaskCompleted
        | HookEventKey::UserPromptSubmit => true,
        _ => false,
    }
}

/// Events on which matchers filter hooks.
pub open spec fn spec_supports_matchers(k: HookEventKey) -> bool {
    match k {
        HookEventKey::PreToolUse | HookEventKey::PostToolUse | HookEventKey::PostToolUseFailure
        | HookEventKey::PermissionRequest | HookEventKey::SessionStart | HookEventKey::SessionEnd
        | HookEventKey::Notification | HookEventKey::SubagentStart | HookEventKey::PreCompact
        | HookEventKey::SubagentStop | HookEventKey::ConfigChange => true,
        _ => false,
    }
}

impl HookEventKey {
    /// The configuration name of this event kind.
    pub fn as_str(self) -> (r: &'static str)
        ensures
            r@ == spec_key_name(self),
    {
        match self {
            HookEventKey::SessionStart => "session_start",
            HookEventKey::SessionEnd => "session_end",
            HookEventKey::UserPromptSubmit => "user_prompt_submit",
            HookEventKey::PreToolUse => "pre_tool_use",
            HookEventKey::PermissionRequest => "permission_request",
            HookEventKey::Notification => "notification",
            HookEventKey::PostToolUse => "post_tool_use",
            HookEventKey::PostToolUseFailure => "post_tool_use_failure",
            HookEventKey::Stop => "stop",
            HookEventKey::TeammateIdle => "teammate_idle",
            HookEventKey::TaskCompleted => "task_completed",
            HookEventKey::ConfigChange => "config_change",
            HookEventKey::SubagentStart => "subagent_start",
            HookEventKey::SubagentStop => "subagent_stop",
            HookEventKey::PreCompact => "pre_compact",
            HookEventKey::WorktreeCreate => "worktree_create",
            HookEventKey::WorktreeRemove => "worktree_remove",
        }
    }

    /// The position of this event kind in the configuration's order.
    pub fn index(self) -> (r: usize)
        ensures
            r as int == spec_key_index(self),
            r < EVENT_KEY_COUNT,
    {
        match self {
            HookEventKey::SessionStart => 0,
            HookEventKey::SessionEnd => 1,
            HookEventKey::UserPromptSubmit => 2,
            HookEventKey::PreToolUse => 3,
            HookEventKey::PermissionRequest => 4,
            HookEventKey::Notification => 5,
            HookEventKey::PostToolUse => 6,
            HookEventKey::PostToolUseFailure => 7,
            HookEventKey::Stop => 8,
            HookEventKey::TeammateIdle => 9,
            HookEventKey::TaskCompleted => 10,
            HookEventKey::ConfigChange => 11,
            HookEventKey::SubagentStart => 12,
            HookEventKey::SubagentStop => 13,
            HookEventKey::PreCompact => 14,
            HookEventKey::WorktreeCreate => 15,
            HookEventKey::WorktreeRemove => 16,
        }
    }

    /// The event kind at a position of the configuration's order.
    pub fn at(i: usize) -> (k: HookEventKey)
        requires
            i < EVENT_KEY_COUNT,
        ensures
            k == spec_key_at(i as int),
            spec_key_index(k) == i,
    {
        if i == 0 {
            HookEventKey::SessionStart
        } else if i == 1 {
            HookEventKey::SessionEnd
        } else if i == 2 {
            HookEventKey::UserPromptSubmit
        } else if i == 3 {
            HookEventKey::PreToolUse
        } else if i == 4 {
            HookEventKey::PermissionRequest
        } else if i == 5 {
            HookEventKey::Notification
        } else if i == 6 {
            HookEventKey::PostToolUse
        } else if i == 7 {
            HookEventKey::PostToolUseFailure
        } else if i == 8 {
            HookEventKey::Stop
        } else if i == 9 {
            HookEventKey::TeammateIdle
        } else if i == 10 {
            HookEventKey::TaskCompleted
        } else if i == 11 {
            HookEventKey::ConfigChange
        } else if i == 12 {
            HookEventKey::SubagentStart
        } else if i == 13 {
            HookEventKey::SubagentStop
        } else if i == 14 {
            HookEventKey::PreCompact
        } else if i == 15 {
            HookEventKey::WorktreeCreate
        } else {
            HookEventKey::WorktreeRemove
        }
    }

    /// Whether exit code 2 blocks on this event.
    pub fn supports_exit_2_block(self) -> (r: bool)
        ensures
            r == spec_supports_exit_2_block(self),
    {
        match self {
            HookEventKey::UserPromptSubmit | HookEventKey::PreToolUse
            | HookEventKey::PermissionRequest | HookEventKey::Stop | HookEventKey::TeammateIdle
            | HookEventKey::TaskCompleted | HookEventKey::ConfigChange
            | HookEventKey::SubagentStop => true,
            _ => false,
        }
    }

    /// Whether output decisions are honoured on this event.
    pub fn supports_output_decisions(self) -> (r: bool)
        ensures
            r == spec_supports_output_decisions(self),
    {
        match self {
            HookEventKey::UserPromptSubmit | HookEventKey::PreToolUse
            | HookEventKey::PermissionRequest | HookEventKey::Stop | HookEventKey::SubagentStop
            | HookEventKey::ConfigChange => true,
            _ => false,
        }
    }

    /// Whether prompt and agent hooks may be configured for this event.
    pub fn supports_prompt_and_agent_hooks(self) -> (r: bool)
        ensures
            r == spec_supports_prompt_and_agent_hooks(self),
    {
        match self {
            HookEventKey::PermissionRequest | HookEventKey::PostToolUse
            | HookEventKey::PostToolUseFailure | HookEventKey::PreToolUse | HookEventKey::Stop
            | HookEventKey::SubagentStop | HookEventKey::TaskCompleted
            | HookEventKey::UserPromptSubmit => true,
            _ => false,
        }
    }

    /// Whether matchers filter hooks on this event.
    pub fn supports_matchers(self) -> (r: bool)
        ensures
            r == spec_supports_matchers(self),
    {
        match self {
            HookEventKey::PreToolUse | HookEventKey::PostToolUse
            | HookEventKey::PostToolUseFailure | HookEventKey::PermissionRequest
            | HookEventKey::SessionStart | HookEventKey::SessionEnd | HookEventKey::Notification
            | HookEventKey::SubagentStart | HookEventKey::PreCompact | HookEventKey::SubagentStop
            | HookEventKey::ConfigChange => true,
            _ => false,
        }
    }
}

/// A hook's verdict on a permission request.
#[derive(Debug, Clone, Copy, PartialEq, Eq, Structural)]
pub enum HookPermissionDecision {
    Allow,
    Deny,
    Ask,
}

/// Whether the operation a hook observed may go on.
#[derive(Debug, Clone, PartialEq, Eq)]
pub enum HookResultControl {
    Continue,
    Block { reason: String },
}

/// What one hook returned.
#[derive(Debug)]
pub struct HookResult {
    pub control: HookResultControl,
    pub permission_decision: Option<HookPermissionDecision>,
    pub permission_decision_reason: Option<String>,
    pub updated_input: Option<JsonValue>,
    pub additional_context: Vec<String>,
    pub error: Option<String>,
}

/// Positions and event kinds correspond one to one.
pub proof fn lemma_key_at_index(k: HookEventKey)
    ensures
        0 <= spec_key_index(k) < EVENT_KEY_COUNT,
        spec_key_at(spec_key_index(k)) == k,
{
}

/// Distinct positions name distinct event kinds.
pub proof fn lemma_key_at_distinct(i: int, j: int)
    requires
        0 <= i < EVENT_KEY_COUNT,
        0 <= j < EVENT_KEY_COUNT,
        i != j,
    ensures
        spec_key_at(i) != spec_key_at(j),
{
    assert(spec_key_index(spec_key_at(i)) == i);
    assert(spec_key_index(spec_key_at(j)) == j);
}

/// A result that lets the operation go on and carries nothing else.
pub open spec fn is_plain_success(r: HookResult) -> bool {
    &&& r.control is Continue
    &&& r.permission_decision is None
    &&& r.permission_decision_reason is None
    &&& r.updated_input is None
    &&& r.additional_context@.len() == 0
    &&& r.error is None
}

/// A result that carries only an error message `e`.
pub open spec fn is_error_result(r: HookResult, e: Seq<char>) -> bool {
    &&& r.control is Continue
    &&& r.permission_decision is None
    &&& r.permission_decision_reason is None
    &&& r.updated_input is None
    &&& r.additional_context@.len() == 0
    &&& r.error matches Some(m) && m@ == e
}

impl HookResult {
    /// A result that lets the operation go on and carries nothing else.
    pub fn success() -> (r: HookResult)
        ensures
            is_plain_success(r),
    {
        HookResult {
            control: HookResultControl::Continue,
            permission_decision: None,
            permission_decision_reason: None,
            updated_input: None,
            additional_context: Vec::new(),
            error: None,
        }
    }

    /// A result that carries only the error message `message`.
    pub fn with_error(message: String) -> (r: HookResult)
        ensures
            is_error_result(r, message@),
    {
        HookResult {
            control: HookResultControl::Continue,
            permission_decision: None,
            permission_decision_reason: None,
            updated_input: None,
            additional_context: Vec::new(),
            error: Some(message),
        }
    }
}

/// The result of one hook, under the hook's name.
#[derive(Debug)]
pub struct HookResponse {
    pub hook_name: String,
    pub result: HookResult,
}

} // verus!
