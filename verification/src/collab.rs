//! Argument checks and texts shared by the collaboration tools: the error type they answer
//! with, the input handed to an agent, wait timeouts and team identifiers.
use crate::text::{
    chars_of, concat, extend_chars, is_blank_str, owned, push_str, string_of, trim, trim_str,
};
use vstd::prelude::*;

verus! {

/// How a collaboration tool call fails: an answer the model reads, or a failure of the tool
/// itself.
#[derive(Debug, PartialEq)]
pub enum FunctionCallError {
    RespondToModel(String),
    Fatal(String),
}

/// `e` is the error answered to the model with the text `m`.
pub open spec fn responds(e: FunctionCallError, m: Seq<char>) -> bool {
    e matches FunctionCallError::RespondToModel(t) && t@ == m
}

/// `e` is the fatal error with the text `m`.
pub open spec fn fatal(e: FunctionCallError, m: Seq<char>) -> bool {
    e matches FunctionCallError::Fatal(t) && t@ == m
}

/// An answer to the model.
pub fn respond(message: String) -> (e: FunctionCallError)
    ensures
        responds(e, message@),
{
    FunctionCallError::RespondToModel(message)
}

/// One item of input handed to an agent. Paths are held as text.
#[derive(Debug, PartialEq)]
pub enum UserInput {
    Text { text: String },
    Image { image_url: String },
    LocalImage { path: String },
    Skill { name: String, path: String },
    Mention { name: String, path: String },
}

/// What an input contributes to its preview.
pub open spec fn spec_input_part(item: UserInput) -> Seq<char> {
    match item {
        UserInput::Text { text } => text@,
        UserInput::Image { .. } => "[image]"@,
        UserInput::LocalImage { path } => "[local_image:"@ + path@ + "]"@,
        UserInput::Skill { name, path } => "[skill:$"@ + name@ + "]("@ + path@ + ")"@,
        UserInput::Mention { name, path } => "[mention:$"@ + name@ + "]("@ + path@ + ")"@,
    }
}

/// The parts of a list of texts joined by `sep`.
pub open spec fn join_with(parts: Seq<Seq<char>>, sep: Seq<char>) -> Seq<char>
    decreases parts.len(),
{
    if parts.len() == 0 {
        seq![]
    } else if parts.len() == 1 {
        parts[0]
    } else {
        join_with(parts.drop_last(), sep) + sep + parts.last()
    }
}

/// The preview of an input: the part of each item, one per line.
pub open spec fn spec_input_preview(items: Seq<UserInput>) -> Seq<char> {
    join_with(items.map_values(|i: UserInput| spec_input_part(i)), "\n"@)
}

fn input_part(item: &UserInput) -> (r: String)
    ensures
        r@ == spec_input_part(*item),
{
    match item {
        UserInput::Text { text } => text.clone(),
        UserInput::Image { .. } => owned("[image]"),
        UserInput::LocalImage { path } => {
            let mut out = chars_of("[local_image:");
            push_str(&mut out, path.as_str());
            push_str(&mut out, "]");
            string_of(out.as_slice())
        },
        UserInput::Skill { name, path } => {
            let mut out = chars_of("[skill:$");
            push_str(&mut out, name.as_str());
            push_str(&mut out, "](");
            push_str(&mut out, path.as_str());
            push_str(&mut out, ")");
            string_of(out.as_slice())
        },
        UserInput::Mention { name, path } => {
            let mut out = chars_of("[mention:$");
            push_str(&mut out, name.as_str());
            push_str(&mut out, "](");
            push_str(&mut out, path.as_str());
            push_str(&mut out, ")");
            string_of(out.as_slice())
        },
    }
}

/// The preview of an input: the text of each text item, and a bracketed note for each other
/// item, one per line.
pub fn input_preview(items: &Vec<UserInput>) -> (r: String)
    ensures
        r@ == spec_input_preview(items@),
{
    let ghost parts = items@.map_values(|i: UserInput| spec_input_part(i));
    let mut out: Vec<char> = Vec::new();
    let mut i: usize = 0;
    while i < items.len()
        invariant
            i <= items@.len(),
            parts == items@.map_values(|i: UserInput| spec_input_part(i)),
            out@ == join_with(parts.take(i as int), "\n"@),
        decreases items@.len() - i,
    {
        proof {
            reveal_strlit("\n");
        }
        if i > 0 {
            out.push('\n');
        }
        let p = input_part(&items[i]);
        let w = chars_of(p.as_str());
        extend_chars(&mut out, w.as_slice());
        assert(parts.take(i + 1).drop_last() =~= parts.take(i as int));
        assert(parts.take(i + 1).last() == parts[i as int]);
        i = i + 1;
    }
    assert(parts.take(items@.len() as int) =~= parts);
    string_of(out.as_slice())
}

/// What `parse_collab_input` answers: exactly one of a message or items must be given; a
/// message must not be blank and becomes one text item; items must not be empty.
pub open spec fn spec_collab_input_error(message: Option<String>, items_len: Option<nat>) -> Option<
    Seq<char>,
> {
    match (message, items_len) {
        (Some(_), Some(_)) => Some("Provide either message or items, but not both"@),
        (None, None) => Some("Provide one of: message or items"@),
        (Some(m), None) => if trim(m@).len() == 0 {
            Some("Empty message can't be sent to an agent"@)
        } else {
            None
        },
        (None, Some(n)) => if n == 0 {
            Some("Items can't be empty"@)
        } else {
            None
        },
    }
}

/// The input handed to an agent, from either a message or a list of items.
pub fn parse_collab_input(message: Option<String>, items: Option<Vec<UserInput>>) -> (r: Result<
    Vec<UserInput>,
    FunctionCallError,
>)
    ensures
        ({
            let items_len = match items {
                Some(v) => Some(v@.len()),
                None => None,
            };
            match spec_collab_input_error(message, items_len) {
                Some(m) => r matches Err(e) && responds(e, m),
                None => r matches Ok(v) && match (message, items) {
                    (Some(m), _) => v@ == seq![UserInput::Text { text: m }],
                    (_, Some(given)) => v@ == given@,
                    _ => false,
                },
            }
        }),
{
    match (message, items) {
        (Some(_), Some(_)) => Err(respond(owned("Provide either message or items, but not both"))),
        (None, None) => Err(respond(owned("Provide one of: message or items"))),
        (Some(message), None) => {
            if is_blank_str(message.as_str()) {
                return Err(respond(owned("Empty message can't be sent to an agent")));
            }
            let mut v: Vec<UserInput> = Vec::new();
            v.push(UserInput::Text { text: message });
            Ok(v)
        },
        (None, Some(items)) => {
            if items.len() == 0 {
                return Err(respond(owned("Items can't be empty")));
            }
            Ok(items)
        },
    }
}

/// The shortest wait, which keeps a caller from polling in a tight loop.
pub const MIN_WAIT_TIMEOUT_MS: i64 = 10_000;

/// The wait when none is given.
pub const DEFAULT_WAIT_TIMEOUT_MS: i64 = 30_000;

/// The longest wait.
pub const MAX_WAIT_TIMEOUT_MS: i64 = 300_000;

/// The wait timeout used: the given one, or the default, clamped to the allowed range; a
/// timeout that is not positive is refused.
pub open spec fn spec_wait_timeout(timeout_ms: Option<i64>) -> Option<i64> {
    let t = match timeout_ms {
        Some(t) => t,
        None => DEFAULT_WAIT_TIMEOUT_MS,
    };
    if t <= 0 {
        None
    } else if t < MIN_WAIT_TIMEOUT_MS {
        Some(MIN_WAIT_TIMEOUT_MS)
    } else if t > MAX_WAIT_TIMEOUT_MS {
        Some(MAX_WAIT_TIMEOUT_MS)
    } else {
        Some(t)
    }
}

/// The wait timeout used, or the error for a timeout that is not positive.
pub fn normalize_wait_timeout(timeout_ms: Option<i64>) -> (r: Result<i64, FunctionCallError>)
    ensures
        match spec_wait_timeout(timeout_ms) {
            Some(t) => r == Ok::<i64, FunctionCallError>(t),
            None => r matches Err(e) && responds(e, "timeout_ms must be greater than zero"@),
        },
{
    let t = match timeout_ms {
        Some(t) => t,
        None => DEFAULT_WAIT_TIMEOUT_MS,
    };
    if t <= 0 {
        Err(respond(owned("timeout_ms must be greater than zero")))
    } else if t < MIN_WAIT_TIMEOUT_MS {
        Ok(MIN_WAIT_TIMEOUT_MS)
    } else if t > MAX_WAIT_TIMEOUT_MS {
        Ok(MAX_WAIT_TIMEOUT_MS)
    } else {
        Ok(t)
    }
}

/// A team identifier, trimmed; a blank one is refused.
pub fn normalized_team_id(team_id: &str) -> (r: Result<String, FunctionCallError>)
    ensures
        trim(team_id@).len() == 0 ==> (r matches Err(e) && responds(e, "team_id must be non-empty"@)),
        trim(team_id@).len() > 0 ==> (r matches Ok(s) && s@ == trim(team_id@)),
{
    let t = trim_str(team_id);
    if t.as_str().is_empty() {
        proof {
            assert(t@.len() == 0);
        }
        return Err(respond(owned("team_id must be non-empty")));
    }
    Ok(t)
}

/// A required text argument, trimmed; a blank one is refused with `<field> must be non-empty`.
pub fn required_non_empty(value: &str, field: &str) -> (r: Result<String, FunctionCallError>)
    ensures
        trim(value@).len() == 0 ==> (r matches Err(e) && responds(e, field@ + " must be non-empty"@)),
        trim(value@).len() > 0 ==> (r matches Ok(s) && s@ == trim(value@)),
{
    let t = trim_str(value);
    if t.as_str().is_empty() {
        return Err(respond(concat(field, " must be non-empty")));
    }
    Ok(t)
}

/// An optional text argument, trimmed when given; a blank one is refused with
/// `<field> must be non-empty when provided`.
pub fn optional_non_empty(value: &Option<String>, field: &str) -> (r: Result<
    Option<String>,
    FunctionCallError,
>)
    ensures
        match value {
            None => r matches Ok(v) && v is None,
            Some(s) => if trim(s@).len() == 0 {
                r matches Err(e) && responds(e, field@ + " must be non-empty when provided"@)
            } else {
                r matches Ok(v) && v matches Some(t) && t@ == trim(s@)
            },
        },
{
    match value {
        Some(raw) => {
            let t = trim_str(raw.as_str());
            if t.as_str().is_empty() {
                Err(respond(concat(field, " must be non-empty when provided")))
            } else {
                Ok(Some(t))
            }
        },
        None => Ok(None),
    }
}

/// The call identifier of a team operation's event: the operation's prefix, then the call's
/// identifier.
pub fn prefixed_team_call_id(prefix: &str, call_id: &str) -> (r: String)
    ensures
        r@ == prefix@ + call_id@,
{
    concat(prefix, call_id)
}

/// The prefix of the call identifiers of team spawns.
pub const TEAM_SPAWN_CALL_PREFIX: &'static str = "team/spawn:";

/// The prefix of the call identifiers of team waits.
pub const TEAM_WAIT_CALL_PREFIX: &'static str = "team/wait:";

/// The prefix of the call identifiers of team closes.
pub const TEAM_CLOSE_CALL_PREFIX: &'static str = "team/close:";

/// The error of a failed team persistence step: `failed to <action> for team `<team>`: <err>`.
pub fn team_persistence_error(action: &str, team_id: &str, err: &str) -> (e: FunctionCallError)
    ensures
        responds(e, "failed to "@ + action@ + " for team `"@ + team_id@ + "`: "@ + err@),
{
    let mut out = chars_of("failed to ");
    push_str(&mut out, action);
    push_str(&mut out, " for team `");
    push_str(&mut out, team_id);
    push_str(&mut out, "`: ");
    push_str(&mut out, err);
    respond(string_of(out.as_slice()))
}

/// An approval policy, as hooks name it.
#[derive(Debug, Clone, Copy, PartialEq, Eq, Structural)]
pub enum AskForApproval {
    UnlessTrusted,
    OnFailure,
    OnRequest,
    Never,
}

/// The name hooks receive for an approval policy.
pub open spec fn spec_approval_policy_name(p: AskForApproval) -> Seq<char> {
    match p {
        AskForApproval::UnlessTrusted => "untrusted"@,
        AskForApproval::OnFailure => "on-failure"@,
        AskForApproval::OnRequest => "on-request"@,
        AskForApproval::Never => "never"@,
    }
}

/// The name hooks receive for an approval policy.
pub fn approval_policy_for_hooks(policy: AskForApproval) -> (r: &'static str)
    ensures
        r@ == spec_approval_policy_name(policy),
{
    match policy {
        AskForApproval::UnlessTrusted => "untrusted",
        AskForApproval::OnFailure => "on-failure",
        AskForApproval::OnRequest => "on-request",
        AskForApproval::Never => "never",
    }
}

/// The text that explains a failed git command: its error output, else its standard output,
/// each trimmed, else `git exited with status <status>`. The outputs are given as decoded text.
pub fn git_error_text(stderr: &str, stdout: &str, status: &str) -> (r: String)
    ensures
        trim(stderr@).len() > 0 ==> r@ == trim(stderr@),
        trim(stderr@).len() == 0 && trim(stdout@).len() > 0 ==> r@ == trim(stdout@),
        trim(stderr@).len() == 0 && trim(stdout@).len() == 0 ==> r@ == "git exited with status "@
            + status@,
{
    let e = trim_str(stderr);
    if !e.as_str().is_empty() {
        return e;
    }
    let o = trim_str(stdout);
    if !o.as_str().is_empty() {
        return o;
    }
    concat("git exited with status ", status)
}

/// The collaboration tools.
#[derive(Debug, Clone, Copy, PartialEq, Eq, Structural)]
pub enum CollabTool {
    SpawnAgent,
    SendInput,
    ResumeAgent,
    Wait,
    CloseAgent,
    SpawnTeam,
    WaitTeam,
    CloseTeam,
    TeamTaskList,
    TeamTaskClaim,
    TeamTaskClaimNext,
    TeamTaskComplete,
    TeamMessage,
    TeamBroadcast,
    TeamCleanup,
}

/// The name a collaboration tool is called by.
pub open spec fn spec_tool_name(t: CollabTool) -> Seq<char> {
    match t {
        CollabTool::SpawnAgent => "spawn_agent"@,
        CollabTool::SendInput => "send_input"@,
        CollabTool::ResumeAgent => "resume_agent"@,
        CollabTool::Wait => "wait"@,
        CollabTool::CloseAgent => "close_agent"@,
        CollabTool::SpawnTeam => "spawn_team"@,
        CollabTool::WaitTeam => "wait_team"@,
        CollabTool::CloseTeam => "close_team"@,
        CollabTool::TeamTaskList => "team_task_list"@,
        CollabTool::TeamTaskClaim => "team_task_claim"@,
        CollabTool::TeamTaskClaimNext => "team_task_claim_next"@,
        CollabTool::TeamTaskComplete => "team_task_complete"@,
        CollabTool::TeamMessage => "team_message"@,
        CollabTool::TeamBroadcast => "team_broadcast"@,
        CollabTool::TeamCleanup => "team_cleanup"@,
    }
}

/// The tool a call names, given whether its payload is a function call: other payloads are
/// refused, and so are names of no collaboration tool.
pub fn collab_tool(tool_name: &str, is_function_payload: bool) -> (r: Result<CollabTool, FunctionCallError>)
    ensures
        !is_function_payload ==> (r matches Err(e) && responds(
            e,
            "collab handler received unsupported payload"@,
        )),
        is_function_payload ==> match r {
            Ok(t) => spec_tool_name(t) == tool_name@,
            Err(e) => responds(e, "unsupported collab tool "@ + tool_name@) && forall|t: CollabTool|
                spec_tool_name(t) != tool_name@,
        },
{
    if !is_function_payload {
        return Err(respond(owned("collab handler received unsupported payload")));
    }
    let names: [(&str, CollabTool); 15] = [
        ("spawn_agent", CollabTool::SpawnAgent),
        ("send_input", CollabTool::SendInput),
        ("resume_agent", CollabTool::ResumeAgent),
        ("wait", CollabTool::Wait),
        ("close_agent", CollabTool::CloseAgent),
        ("spawn_team", CollabTool::SpawnTeam),
        ("wait_team", CollabTool::WaitTeam),
        ("close_team", CollabTool::CloseTeam),
        ("team_task_list", CollabTool::TeamTaskList),
        ("team_task_claim", CollabTool::TeamTaskClaim),
        ("team_task_claim_next", CollabTool::TeamTaskClaimNext),
        ("team_task_complete", CollabTool::TeamTaskComplete),
        ("team_message", CollabTool::TeamMessage),
        ("team_broadcast", CollabTool::TeamBroadcast),
        ("team_cleanup", CollabTool::TeamCleanup),
    ];
    let mut i: usize = 0;
    while i < 15
        invariant
            i <= 15,
            is_function_payload,
            forall|k: int| 0 <= k < 15 ==> spec_tool_name((#[trigger] names@[k]).1) == names@[k].0@,
            forall|t: CollabTool| spec_tool_name(t) == tool_name@ ==> exists|k: int| i <= k < 15 && (#[trigger] names@[k]).1 == t,
        decreases 15 - i,
    {
        if crate::text::str_eq(names[i].0, tool_name) {
            return Ok(names[i].1);
        }
        i = i + 1;
    }
    Err(respond(concat("unsupported collab tool ", tool_name)))
}

/// The call identifier of one member's share of a broadcast: `<call>:<member>`.
pub fn member_call_id(call_id: &str, member_name: &str) -> (r: String)
    ensures
        r@ == call_id@ + ":"@ + member_name@,
{
    let mut out = chars_of(call_id);
    push_str(&mut out, ":");
    push_str(&mut out, member_name);
    string_of(out.as_slice())
}

/// The handler of the collaboration tools.
#[derive(Debug)]
pub struct MultiAgentHandler {}

impl MultiAgentHandler {
    /// Whether the handler takes a payload: only function calls.
    pub fn matches_kind(&self, is_function_payload: bool) -> (r: bool)
        ensures
            r == is_function_payload,
    {
        is_function_payload
    }

    /// The tool a call names, refusing payloads that are not function calls and unknown names.
    pub fn tool(&self, tool_name: &str, is_function_payload: bool) -> (r: Result<CollabTool, FunctionCallError>)
        ensures
            !is_function_payload ==> (r matches Err(e) && responds(
                e,
                "collab handler received unsupported payload"@,
            )),
            is_function_payload ==> match r {
                Ok(t) => spec_tool_name(t) == tool_name@,
                Err(e) => responds(e, "unsupported collab tool "@ + tool_name@) && forall|t: CollabTool|
                    spec_tool_name(t) != tool_name@,
            },
    {
        collab_tool(tool_name, is_function_payload)
    }
}

} // verus!
