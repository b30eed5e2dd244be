//! Prompt and agent hooks: how long they may take, what the agent is told, and what each way
//! of failing reports.
use crate::hooks::output::{
    block_reason, decision_to_result, render_prompt_with_arguments, spec_render_prompt,
};
use crate::hooks::registry::opt_view;
use crate::hooks::types::{is_error_result, is_plain_success, HookResult};
use crate::teams::{spec_is_final, AgentStatus};
use crate::text::{chars_of, is_blank, is_blank_str, owned, push_str, string_of, trim, trim_str};
use vstd::prelude::*;

verus! {

/// How long a prompt hook may take when its configuration gives no timeout, in seconds.
pub const PROMPT_HOOK_DEFAULT_TIMEOUT_SECS: u64 = 30;

/// How long an agent hook may take when its configuration gives no timeout, in seconds.
pub const AGENT_HOOK_DEFAULT_TIMEOUT_SECS: u64 = 60;

/// The timeout of a prompt or agent hook: the configured one, or the default.
pub fn hook_timeout_secs(timeout: Option<u64>, default_secs: u64) -> (r: u64)
    ensures
        r == match timeout {
            Some(t) => t,
            None => default_secs,
        },
{
    match timeout {
        Some(t) => t,
        None => default_secs,
    }
}

/// The instructions a prompt hook's model answers under.
pub const PROMPT_HOOK_INSTRUCTIONS: &'static str = "Return JSON only: {\"ok\": true} or {\"ok\": false, \"reason\": \"...\"}. No extra text.";

/// What the agent of an agent hook is told before the hook's prompt.
pub const AGENT_HOOK_PREAMBLE: &'static str = "You are running an agent hook verifier. You may use tools to verify conditions. Return JSON only as the final message: {\"ok\": true} or {\"ok\": false, \"reason\": \"...\"}.\n\n";

/// The message an agent hook's agent starts from: the preamble, then the hook's prompt
/// rendered with the event's arguments.
pub fn agent_hook_prompt(prompt: &str, arguments: &str) -> (r: String)
    ensures
        r@ == AGENT_HOOK_PREAMBLE@ + spec_render_prompt(prompt@, arguments@),
{
    let rendered = render_prompt_with_arguments(prompt, arguments);
    let mut out = chars_of(AGENT_HOOK_PREAMBLE);
    push_str(&mut out, rendered.as_str());
    string_of(out.as_slice())
}

/// How a prompt hook can fail.
#[derive(Debug)]
pub enum PromptHookFailure {
    RequestFailed(String),
    StreamError(String),
    InvalidJson(String),
    TimedOut,
}

/// The message of a prompt hook failure.
pub open spec fn spec_prompt_failure_message(f: PromptHookFailure) -> Seq<char> {
    match f {
        PromptHookFailure::RequestFailed(e) => "prompt hook request failed: "@ + e@,
        PromptHookFailure::StreamError(e) => "prompt hook stream error: "@ + e@,
        PromptHookFailure::InvalidJson(e) => "prompt hook returned invalid JSON: "@ + e@,
        PromptHookFailure::TimedOut => "prompt hook timed out"@,
    }
}

fn prefixed(prefix: &str, e: &str) -> (r: String)
    ensures
        r@ == prefix@ + e@,
{
    let mut out = chars_of(prefix);
    push_str(&mut out, e);
    string_of(out.as_slice())
}

/// What a failed prompt hook reports: only the failure's message.
pub fn prompt_hook_failure(f: PromptHookFailure) -> (r: HookResult)
    ensures
        is_error_result(r, spec_prompt_failure_message(f)),
{
    let m = match f {
        PromptHookFailure::RequestFailed(e) => prefixed("prompt hook request failed: ", e.as_str()),
        PromptHookFailure::StreamError(e) => prefixed("prompt hook stream error: ", e.as_str()),
        PromptHookFailure::InvalidJson(e) => prefixed("prompt hook returned invalid JSON: ", e.as_str()),
        PromptHookFailure::TimedOut => owned("prompt hook timed out"),
    };
    HookResult::with_error(m)
}

/// How an agent hook can fail.
#[derive(Debug)]
pub enum AgentHookFailure {
    SpawnFailed(String),
    TimedOut,
    EndedUnexpectedly,
    RolloutNotFound,
    RolloutLookupFailed(String),
    RolloutReadFailed(String),
    InvalidJson(String),
}

/// The message of an agent hook failure.
pub open spec fn spec_agent_failure_message(f: AgentHookFailure) -> Seq<char> {
    match f {
        AgentHookFailure::SpawnFailed(e) => "agent hook failed to spawn: "@ + e@,
        AgentHookFailure::TimedOut => "agent hook timed out"@,
        AgentHookFailure::EndedUnexpectedly => "agent hook ended unexpectedly"@,
        AgentHookFailure::RolloutNotFound => "agent hook rollout not found"@,
        AgentHookFailure::RolloutLookupFailed(e) => "agent hook rollout lookup failed: "@ + e@,
        AgentHookFailure::RolloutReadFailed(e) => "agent hook rollout read failed: "@ + e@,
        AgentHookFailure::InvalidJson(e) => "agent hook returned invalid JSON: "@ + e@,
    }
}

/// What a failed agent hook reports: only the failure's message.
pub fn agent_hook_failure(f: AgentHookFailure) -> (r: HookResult)
    ensures
        is_error_result(r, spec_agent_failure_message(f)),
{
    let m = match f {
        AgentHookFailure::SpawnFailed(e) => prefixed("agent hook failed to spawn: ", e.as_str()),
        AgentHookFailure::TimedOut => owned("agent hook timed out"),
        AgentHookFailure::EndedUnexpectedly => owned("agent hook ended unexpectedly"),
        AgentHookFailure::RolloutNotFound => owned("agent hook rollout not found"),
        AgentHookFailure::RolloutLookupFailed(e) => prefixed(
            "agent hook rollout lookup failed: ",
            e.as_str(),
        ),
        AgentHookFailure::RolloutReadFailed(e) => prefixed(
            "agent hook rollout read failed: ",
            e.as_str(),
        ),
        AgentHookFailure::InvalidJson(e) => prefixed("agent hook returned invalid JSON: ", e.as_str()),
    };
    HookResult::with_error(m)
}

/// The reason a blocking verdict gives: its own when it is not blank, a stock one otherwise.
pub open spec fn verdict_reason(reason: Option<Seq<char>>) -> Seq<char> {
    match reason {
        Some(s) => if trim(s).len() > 0 {
            s
        } else {
            "hook blocked operation"@
        },
        None => "hook blocked operation"@,
    }
}

/// The result of a verdict `{ok, reason}`: success when `ok`, otherwise a block with the
/// verdict's reason and nothing else.
pub open spec fn is_verdict_result(r: HookResult, ok: bool, reason: Option<Seq<char>>) -> bool {
    if ok {
        is_plain_success(r)
    } else {
        &&& block_reason(r.control) == Some(verdict_reason(reason))
        &&& r.permission_decision is None
        &&& r.permission_decision_reason is None
        &&& r.updated_input is None
        &&& r.additional_context@.len() == 0
        &&& r.error is None
    }
}

/// What the agent hook's runner reports after carrying out the previous action.
#[derive(Debug)]
pub enum AgentHookEvent {
    /// The agent was spawned (its identifier), or spawning failed (the error).
    Spawned(Result<String, String>),
    /// The agent's state once it stopped changing; none when the timeout ran out first.
    Settled(Option<AgentStatus>),
    /// Where the agent's rollout is, none when it is not found, or the lookup's error.
    RolloutFound(Result<Option<String>, String>),
    /// The last assistant message of the rollout (none when it has none), or the read error.
    RolloutRead(Result<Option<String>, String>),
    /// The verdict `(ok, reason)` parsed from that message, or the parse error.
    VerdictParsed(Result<(bool, Option<String>), String>),
}

/// What the agent hook's runner does next.
#[derive(Debug)]
pub enum AgentHookAction {
    /// Wait, within the hook's timeout, for the agent's state to stop changing.
    WaitForFinalStatus,
    /// Look up the agent's rollout.
    FindRollout,
    /// Read the last assistant message of the rollout at this path.
    ReadRollout(String),
    /// Shut the agent down, then parse this text as the verdict.
    ShutDownAndParse(String),
    /// Shut the agent down when `shut_down`, and report `result`.
    Finish { shut_down: bool, result: HookResult },
}

/// The agent hook finishes with the failure `f`'s message, shutting the agent down or not.
pub open spec fn finishes_with_failure(a: AgentHookAction, shut_down: bool, f: AgentHookFailure) -> bool {
    a matches AgentHookAction::Finish { shut_down: s, result } && s == shut_down && is_error_result(
        result,
        spec_agent_failure_message(f),
    )
}

/// The step of an agent hook after an event. A failed spawn reports it. The spawned agent is
/// waited for; if it does not settle in time, or settles in a state that is not final, it is
/// shut down and that is reported. Otherwise its rollout is looked up and its last assistant
/// message read; a missing rollout or a failed lookup or read shuts the agent down and is
/// reported. The agent is shut down before its message, trimmed, is parsed as the verdict; an
/// unparseable verdict is reported, a parsed one gives the verdict's result.
pub open spec fn agent_step(e: AgentHookEvent, a: AgentHookAction) -> bool {
    match e {
        AgentHookEvent::Spawned(Ok(_)) => a is WaitForFinalStatus,
        AgentHookEvent::Spawned(Err(err)) => finishes_with_failure(
            a,
            false,
            AgentHookFailure::SpawnFailed(err),
        ),
        AgentHookEvent::Settled(None) => finishes_with_failure(a, true, AgentHookFailure::TimedOut),
        AgentHookEvent::Settled(Some(st)) => if spec_is_final(st) {
            a is FindRollout
        } else {
            finishes_with_failure(a, true, AgentHookFailure::EndedUnexpectedly)
        },
        AgentHookEvent::RolloutFound(Ok(Some(p))) => a matches AgentHookAction::ReadRollout(q) && q@
            == p@,
        AgentHookEvent::RolloutFound(Ok(None)) => finishes_with_failure(
            a,
            true,
            AgentHookFailure::RolloutNotFound,
        ),
        AgentHookEvent::RolloutFound(Err(err)) => finishes_with_failure(
            a,
            true,
            AgentHookFailure::RolloutLookupFailed(err),
        ),
        AgentHookEvent::RolloutRead(Ok(m)) => a matches AgentHookAction::ShutDownAndParse(t) && t@
            == trim(
            match m {
                Some(text) => text@,
                None => seq![],
            },
        ),
        AgentHookEvent::RolloutRead(Err(err)) => finishes_with_failure(
            a,
            true,
            AgentHookFailure::RolloutReadFailed(err),
        ),
        AgentHookEvent::VerdictParsed(Ok((ok, reason))) => a matches AgentHookAction::Finish {
            shut_down,
            result,
        } && !shut_down && is_verdict_result(result, ok, opt_view(reason)),
        AgentHookEvent::VerdictParsed(Err(err)) => finishes_with_failure(
            a,
            false,
            AgentHookFailure::InvalidJson(err),
        ),
    }
}

fn finish_failed(shut_down: bool, f: AgentHookFailure) -> (a: AgentHookAction)
    ensures
        finishes_with_failure(a, shut_down, f),
{
    AgentHookAction::Finish { shut_down, result: agent_hook_failure(f) }
}

/// What an agent hook does after an event.
pub fn agent_hook_step(event: AgentHookEvent) -> (a: AgentHookAction)
    ensures
        agent_step(event, a),
{
    match event {
        AgentHookEvent::Spawned(Ok(_)) => AgentHookAction::WaitForFinalStatus,
        AgentHookEvent::Spawned(Err(err)) => finish_failed(false, AgentHookFailure::SpawnFailed(err)),
        AgentHookEvent::Settled(None) => finish_failed(true, AgentHookFailure::TimedOut),
        AgentHookEvent::Settled(Some(st)) => {
            if st.is_final() {
                AgentHookAction::FindRollout
            } else {
                finish_failed(true, AgentHookFailure::EndedUnexpectedly)
            }
        },
        AgentHookEvent::RolloutFound(Ok(Some(p))) => AgentHookAction::ReadRollout(p),
        AgentHookEvent::RolloutFound(Ok(None)) => finish_failed(true, AgentHookFailure::RolloutNotFound),
        AgentHookEvent::RolloutFound(Err(err)) => finish_failed(
            true,
            AgentHookFailure::RolloutLookupFailed(err),
        ),
        AgentHookEvent::RolloutRead(Ok(m)) => {
            let text = match m {
                Some(t) => trim_str(t.as_str()),
                None => String::new(),
            };
            AgentHookAction::ShutDownAndParse(text)
        },
        AgentHookEvent::RolloutRead(Err(err)) => finish_failed(
            true,
            AgentHookFailure::RolloutReadFailed(err),
        ),
        AgentHookEvent::VerdictParsed(Ok((ok, reason))) => AgentHookAction::Finish {
            shut_down: false,
            result: decision_to_result(ok, reason),
        },
        AgentHookEvent::VerdictParsed(Err(err)) => finish_failed(
            false,
            AgentHookFailure::InvalidJson(err),
        ),
    }
}

/// One event of a prompt hook's response stream.
#[derive(Debug)]
pub enum PromptStreamEvent {
    /// A piece of the answer's text.
    OutputTextDelta(String),
    /// The answer is complete.
    Completed,
    /// Anything else the stream carries.
    Other,
    /// The stream failed with this error.
    Failed(String),
}

/// How reading a prompt hook's stream goes on after an event.
#[derive(Debug)]
pub enum PromptStreamStep {
    /// Read the next event.
    Continue,
    /// The answer is complete: parse the collected text, trimmed, as the verdict.
    Finished,
    /// Stop and report this result.
    Failed(HookResult),
}

/// Takes one event of a prompt hook's response stream into the text collected so far: a
/// piece of text is appended, completion ends the reading, a failure is reported, and
/// anything else is passed over.
pub fn prompt_stream_step(text: &mut String, event: PromptStreamEvent) -> (r: PromptStreamStep)
    ensures
        match event {
            PromptStreamEvent::OutputTextDelta(d) => final(text)@ == old(text)@ + d@ && r is Continue,
            PromptStreamEvent::Completed => final(text)@ == old(text)@ && r is Finished,
            PromptStreamEvent::Other => final(text)@ == old(text)@ && r is Continue,
            PromptStreamEvent::Failed(e) => final(text)@ == old(text)@ && (r matches PromptStreamStep::Failed(res)
                && is_error_result(res, spec_prompt_failure_message(PromptHookFailure::StreamError(e)))),
        },
{
    match event {
        PromptStreamEvent::OutputTextDelta(d) => {
            let mut v = chars_of(text.as_str());
            push_str(&mut v, d.as_str());
            *text = string_of(v.as_slice());
            PromptStreamStep::Continue
        },
        PromptStreamEvent::Completed => PromptStreamStep::Finished,
        PromptStreamEvent::Other => PromptStreamStep::Continue,
        PromptStreamEvent::Failed(e) => PromptStreamStep::Failed(
            prompt_hook_failure(PromptHookFailure::StreamError(e)),
        ),
    }
}

/// The result of a prompt hook given its parsed verdict `(ok, reason)`, or the parse error.
pub fn prompt_hook_verdict(parsed: Result<(bool, Option<String>), String>) -> (r: HookResult)
    ensures
        match parsed {
            Ok((ok, reason)) => is_verdict_result(r, ok, opt_view(reason)),
            Err(e) => is_error_result(r, spec_prompt_failure_message(PromptHookFailure::InvalidJson(e))),
        },
{
    match parsed {
        Ok((ok, reason)) => decision_to_result(ok, reason),
        Err(e) => prompt_hook_failure(PromptHookFailure::InvalidJson(e)),
    }
}

/// A part of a message's content in a rollout.
#[derive(Debug)]
pub enum RolloutContent {
    InputText(String),
    OutputText(String),
    InputImage,
}

/// A record of a rollout, as far as an agent hook reads it.
#[derive(Debug)]
pub enum RolloutRecord {
    /// A message, with its role and content.
    Message { role: String, content: Vec<RolloutContent> },
    /// A compaction, with the message that stands for what was compacted.
    Compacted { message: String },
    /// Any other record.
    Other,
}

/// The text of a message's content: its text parts, joined by line breaks (an empty text so
/// far takes no break); images contribute nothing.
pub open spec fn content_text(parts: Seq<RolloutContent>) -> Seq<char>
    decreases parts.len(),
{
    if parts.len() == 0 {
        seq![]
    } else {
        let t = content_text(parts.drop_last());
        match parts.last() {
            RolloutContent::InputText(s) => if t.len() == 0 {
                s@
            } else {
                t + seq!['\n'] + s@
            },
            RolloutContent::OutputText(s) => if t.len() == 0 {
                s@
            } else {
                t + seq!['\n'] + s@
            },
            RolloutContent::InputImage => t,
        }
    }
}

/// The last message of a rollout that counts as the assistant's: an assistant message whose
/// text is not blank, or the message of a compaction, whichever comes last.
pub open spec fn last_message(records: Seq<RolloutRecord>) -> Option<Seq<char>>
    decreases records.len(),
{
    if records.len() == 0 {
        None
    } else {
        let prev = last_message(records.drop_last());
        match records.last() {
            RolloutRecord::Message { role, content } => if role@ == "assistant"@ && !is_blank(
                content_text(content@),
            ) {
                Some(content_text(content@))
            } else {
                prev
            },
            RolloutRecord::Compacted { message } => Some(message@),
            RolloutRecord::Other => prev,
        }
    }
}

fn message_text(content: &Vec<RolloutContent>) -> (r: String)
    ensures
        r@ == content_text(content@),
{
    let mut out: Vec<char> = Vec::new();
    let mut j: usize = 0;
    while j < content.len()
        invariant
            j <= content@.len(),
            out@ == content_text(content@.take(j as int)),
        decreases content@.len() - j,
    {
        assert(content@.take(j as int + 1).drop_last() =~= content@.take(j as int));
        match &content[j] {
            RolloutContent::InputText(s) | RolloutContent::OutputText(s) => {
                if out.len() > 0 {
                    out.push('\n');
                }
                push_str(&mut out, s.as_str());
            },
            RolloutContent::InputImage => {},
        }
        j = j + 1;
    }
    assert(content@.take(content@.len() as int) =~= content@);
    string_of(out.as_slice())
}

/// The last message of a rollout that counts as the assistant's.
pub fn last_assistant_message(records: &Vec<RolloutRecord>) -> (r: Option<String>)
    ensures
        opt_view(r) == last_message(records@),
{
    let mut last: Option<String> = None;
    let mut i: usize = 0;
    while i < records.len()
        invariant
            i <= records@.len(),
            opt_view(last) == last_message(records@.take(i as int)),
        decreases records@.len() - i,
    {
        assert(records@.take(i as int + 1).drop_last() =~= records@.take(i as int));
        match &records[i] {
            RolloutRecord::Message { role, content } => {
                if crate::text::str_eq(role.as_str(), "assistant") {
                    let text = message_text(content);
                    if !is_blank_str(text.as_str()) {
                        last = Some(text);
                    }
                }
            },
            RolloutRecord::Compacted { message } => {
                last = Some(message.clone());
            },
            RolloutRecord::Other => {},
        }
        i = i + 1;
    }
    assert(records@.take(records@.len() as int) =~= records@);
    last
}

} // verus!
