//! Hook configuration as the user writes it.
use crate::hooks::types::HookEventKey;
use vstd::prelude::*;

verus! {

/// Conditions under which a hook runs for an event.
#[derive(Debug, Clone, Default)]
pub struct HookMatcherConfig {
    pub tool_name: Option<String>,
    pub tool_name_regex: Option<String>,
    pub prompt_regex: Option<String>,
    pub matcher: Option<String>,
}

/// What a hook runs: a command, a model prompt, or an agent.
#[derive(Debug, Clone, Copy, PartialEq, Eq, Default, Structural)]
pub enum HookHandlerType {
    #[default]
    Command,
    Prompt,
    Agent,
}

/// One configured hook.
#[derive(Debug, Clone, Default)]
pub struct CommandHookConfig {
    pub name: Option<String>,
    pub handler_type: HookHandlerType,
    pub command: Vec<String>,
    pub prompt: Option<String>,
    pub model: Option<String>,
    pub async_: bool,
    /// Timeout in seconds.
    pub timeout: Option<u64>,
    pub status_message: Option<String>,
    pub once: bool,
    pub matcher: HookMatcherConfig,
}

/// The configured hooks of every event, in configuration order.
#[derive(Debug, Clone, Default)]
pub struct CommandHooksConfig {
    pub session_start: Vec<CommandHookConfig>,
    pub session_end: Vec<CommandHookConfig>,
    pub user_prompt_submit: Vec<CommandHookConfig>,
    pub pre_tool_use: Vec<CommandHookConfig>,
    pub permission_request: Vec<CommandHookConfig>,
    pub notification: Vec<CommandHookConfig>,
    pub post_tool_use: Vec<CommandHookConfig>,
    pub post_tool_use_failure: Vec<CommandHookConfig>,
    pub stop: Vec<CommandHookConfig>,
    pub teammate_idle: Vec<CommandHookConfig>,
    pub task_completed: Vec<CommandHookConfig>,
    pub config_change: Vec<CommandHookConfig>,
    pub subagent_start: Vec<CommandHookConfig>,
    pub subagent_stop: Vec<CommandHookConfig>,
    pub pre_compact: Vec<CommandHookConfig>,
    pub worktree_create: Vec<CommandHookConfig>,
    pub worktree_remove: Vec<CommandHookConfig>,
}

/// The hooks configuration of a session.
#[derive(Debug, Clone, Default)]
pub struct HooksConfig {
    pub command_hooks: CommandHooksConfig,
}

/// The configured hooks of one event.
pub open spec fn spec_configs_for(c: CommandHooksConfig, k: HookEventKey) -> Seq<
    CommandHookConfig,
> {
    match k {
        HookEventKey::SessionStart => c.session_start@,
        HookEventKey::SessionEnd => c.session_end@,
        HookEventKey::UserPromptSubmit => c.user_prompt_submit@,
        HookEventKey::PreToolUse => c.pre_tool_use@,
        HookEventKey::PermissionRequest => c.permission_request@,
        HookEventKey::Notification => c.notification@,
        HookEventKey::PostToolUse => c.post_tool_use@,
        HookEventKey::PostToolUseFailure => c.post_tool_use_failure@,
        HookEventKey::Stop => c.stop@,
        HookEventKey::TeammateIdle => c.teammate_idle@,
        HookEventKey::TaskCompleted => c.task_completed@,
        HookEventKey::ConfigChange => c.config_change@,
        HookEventKey::SubagentStart => c.subagent_start@,
        HookEventKey::SubagentStop => c.subagent_stop@,
        HookEventKey::PreCompact => c.pre_compact@,
        HookEventKey::WorktreeCreate => c.worktree_create@,
        HookEventKey::WorktreeRemove => c.worktree_remove@,
    }
}

impl CommandHooksConfig {
    /// The configured hooks of one event.
    pub fn configs_for(&self, k: HookEventKey) -> (r: &Vec<CommandHookConfig>)
        ensures
            r@ == spec_configs_for(*self, k),
    {
        match k {
            HookEventKey::SessionStart => &self.session_start,
            HookEventKey::SessionEnd => &self.session_end,
            HookEventKey::UserPromptSubmit => &self.user_prompt_submit,
            HookEventKey::PreToolUse => &self.pre_tool_use,
            HookEventKey::PermissionRequest => &self.permission_request,
            HookEventKey::Notification => &self.notification,
            HookEventKey::PostToolUse => &self.post_tool_use,
            HookEventKey::PostToolUseFailure => &self.post_tool_use_failure,
            HookEventKey::Stop => &self.stop,
            HookEventKey::TeammateIdle => &self.teammate_idle,
            HookEventKey::TaskCompleted => &self.task_completed,
            HookEventKey::ConfigChange => &self.config_change,
            HookEventKey::SubagentStart => &self.subagent_start,
            HookEventKey::SubagentStop => &self.subagent_stop,
            HookEventKey::PreCompact => &self.pre_compact,
            HookEventKey::WorktreeCreate => &self.worktree_create,
            HookEventKey::WorktreeRemove => &self.worktree_remove,
        }
    }

    /// A configuration without hooks.
    pub fn empty() -> (r: CommandHooksConfig)
        ensures
            forall|k: HookEventKey| #[trigger] spec_configs_for(r, k).len() == 0,
    {
        CommandHooksConfig {
            session_start: Vec::new(),
            session_end: Vec::new(),
            user_prompt_submit: Vec::new(),
            pre_tool_use: Vec::new(),
            permission_request: Vec::new(),
            notification: Vec::new(),
            post_tool_use: Vec::new(),
            post_tool_use_failure: Vec::new(),
            stop: Vec::new(),
            teammate_idle: Vec::new(),
            task_completed: Vec::new(),
            config_change: Vec::new(),
            subagent_start: Vec::new(),
            subagent_stop: Vec::new(),
            pre_compact: Vec::new(),
            worktree_create: Vec::new(),
            worktree_remove: Vec::new(),
        }
    }

    /// Appends a hook to the configured hooks of one event; the other events keep theirs.
    pub fn push_for(&mut self, k: HookEventKey, hook: CommandHookConfig)
        ensures
            spec_configs_for(*final(self), k) == spec_configs_for(*old(self), k).push(hook),
            forall|j: HookEventKey|
                j != k ==> spec_configs_for(*final(self), j) == spec_configs_for(*old(self), j),
    {
        match k {
            HookEventKey::SessionStart => self.session_start.push(hook),
            HookEventKey::SessionEnd => self.session_end.push(hook),
            HookEventKey::UserPromptSubmit => self.user_prompt_submit.push(hook),
            HookEventKey::PreToolUse => self.pre_tool_use.push(hook),
            HookEventKey::PermissionRequest => self.permission_request.push(hook),
            HookEventKey::Notification => self.notification.push(hook),
            HookEventKey::PostToolUse => self.post_tool_use.push(hook),
            HookEventKey::PostToolUseFailure => self.post_tool_use_failure.push(hook),
            HookEventKey::Stop => self.stop.push(hook),
            HookEventKey::TeammateIdle => self.teammate_idle.push(hook),
            HookEventKey::TaskCompleted => self.task_completed.push(hook),
            HookEventKey::ConfigChange => self.config_change.push(hook),
            HookEventKey::SubagentStart => self.subagent_start.push(hook),
            HookEventKey::SubagentStop => self.subagent_stop.push(hook),
            HookEventKey::PreCompact => self.pre_compact.push(hook),
            HookEventKey::WorktreeCreate => self.worktree_create.push(hook),
            HookEventKey::WorktreeRemove => self.worktree_remove.push(hook),
        }
    }
}

} // verus!
