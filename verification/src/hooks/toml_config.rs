//! Hooks as configuration files write them, and how the layers of configuration add up.
use crate::hooks::config::{
    spec_configs_for, CommandHookConfig, CommandHooksConfig, HookHandlerType, HookMatcherConfig,
};
use crate::hooks::registry::clone_strings;
use crate::hooks::types::{spec_key_at, HookEventKey, EVENT_KEY_COUNT};
use crate::text::{is_blank_str, owned, trim, trim_str};
use vstd::prelude::*;

verus! {

/// A hook's command: a shell command line, or the words of a command.
#[derive(Debug)]
pub enum HookCommandToml {
    Shell(String),
    Argv(Vec<String>),
}

/// The conditions of a configured hook.
#[derive(Debug, Default)]
pub struct HookMatcherToml {
    pub tool_name: Option<String>,
    pub tool_name_regex: Option<String>,
    pub prompt_regex: Option<String>,
    pub matcher: Option<String>,
}

/// One configured hook.
#[derive(Debug)]
pub struct HookEntryToml {
    pub name: Option<String>,
    pub command: HookCommandToml,
    pub async_: bool,
    pub timeout: Option<u64>,
    pub status_message: Option<String>,
    pub once: bool,
    pub matcher: HookMatcherToml,
}

/// The hooks of one configuration layer, per event.
#[derive(Debug, Default)]
pub struct HooksToml {
    pub session_start: Vec<HookEntryToml>,
    pub session_end: Vec<HookEntryToml>,
    pub user_prompt_submit: Vec<HookEntryToml>,
    pub pre_tool_use: Vec<HookEntryToml>,
    pub permission_request: Vec<HookEntryToml>,
    pub notification: Vec<HookEntryToml>,
    pub post_tool_use: Vec<HookEntryToml>,
    pub post_tool_use_failure: Vec<HookEntryToml>,
    pub stop: Vec<HookEntryToml>,
    pub teammate_idle: Vec<HookEntryToml>,
    pub task_completed: Vec<HookEntryToml>,
    pub config_change: Vec<HookEntryToml>,
    pub subagent_start: Vec<HookEntryToml>,
    pub subagent_stop: Vec<HookEntryToml>,
    pub pre_compact: Vec<HookEntryToml>,
    pub worktree_create: Vec<HookEntryToml>,
    pub worktree_remove: Vec<HookEntryToml>,
}

/// The configured hooks of one event, in a layer.
pub open spec fn spec_entries_for(h: HooksToml, k: HookEventKey) -> Seq<HookEntryToml> {
    match k {
        HookEventKey::SessionStart => h.session_start@,
        HookEventKey::SessionEnd => h.session_end@,
        HookEventKey::UserPromptSubmit => h.user_prompt_submit@,
        HookEventKey::PreToolUse => h.pre_tool_use@,
        HookEventKey::PermissionRequest => h.permission_request@,
        HookEventKey::Notification => h.notification@,
        HookEventKey::PostToolUse => h.post_tool_use@,
        HookEventKey::PostToolUseFailure => h.post_tool_use_failure@,
        HookEventKey::Stop => h.stop@,
        HookEventKey::TeammateIdle => h.teammate_idle@,
        HookEventKey::TaskCompleted => h.task_completed@,
        HookEventKey::ConfigChange => h.config_change@,
        HookEventKey::SubagentStart => h.subagent_start@,
        HookEventKey::SubagentStop => h.subagent_stop@,
        HookEventKey::PreCompact => h.pre_compact@,
        HookEventKey::WorktreeCreate => h.worktree_create@,
        HookEventKey::WorktreeRemove => h.worktree_remove@,
    }
}

impl HooksToml {
    /// The configured hooks of one event.
    pub fn entries_for(&self, k: HookEventKey) -> (r: &Vec<HookEntryToml>)
        ensures
            r@ == spec_entries_for(*self, k),
    {
        match k {
            HookEventKey::SessionStart => &self.session_start,
            HookEventKey::SessionEnd => &self.session_end,
            HookEventKey::UserPromptSubmit => &self.user_prompt_submit,
            HookEventKey::PreToolUse => &self.pre_tool_use,
            HookEventKey::PermissionRequest => &self.permission_request,
            HookEventKey::Notification => &self.notification,
            HookEventKey::PostToolUse => &self.post_tool_use,
            HookEventKey::PostToolUseFailure => &self.post_tool_use_failure,
            HookEventKey::Stop => &self.stop,
            HookEventKey::TeammateIdle => &self.teammate_idle,
            HookEventKey::TaskCompleted => &self.task_completed,
            HookEventKey::ConfigChange => &self.config_change,
            HookEventKey::SubagentStart => &self.subagent_start,
            HookEventKey::SubagentStop => &self.subagent_stop,
            HookEventKey::PreCompact => &self.pre_compact,
            HookEventKey::WorktreeCreate => &self.worktree_create,
            HookEventKey::WorktreeRemove => &self.worktree_remove,
        }
    }
}

/// The views of a list of texts.
pub open spec fn words(v: Seq<String>) -> Seq<Seq<char>> {
    v.map_values(|s: String| s@)
}

/// The command line that runs a shell command on Unix: `sh -c <command>`.
pub open spec fn spec_shell_command_argv(command: Seq<char>) -> Seq<Seq<char>> {
    seq!["sh"@, "-c"@, command]
}

/// The words a hook runs: a shell command, trimmed, run by the shell (nothing for a blank
/// one); the words of a command as they are.
pub open spec fn spec_command_argv(c: HookCommandToml) -> Seq<Seq<char>> {
    match c {
        HookCommandToml::Shell(s) => if trim(s@).len() == 0 {
            seq![]
        } else {
            spec_shell_command_argv(trim(s@))
        },
        HookCommandToml::Argv(v) => words(v@),
    }
}

/// The command line that runs a shell command on Unix: `sh -c <command>`.
pub fn shell_command_argv(command: &str) -> (r: Vec<String>)
    ensures
        words(r@) == spec_shell_command_argv(command@),
{
    let mut v: Vec<String> = Vec::new();
    v.push(owned("sh"));
    v.push(owned("-c"));
    v.push(owned(command));
    assert(words(v@) =~= spec_shell_command_argv(command@));
    v
}

/// The words a hook runs.
pub fn command_argv(command: &HookCommandToml) -> (r: Vec<String>)
    ensures
        words(r@) == spec_command_argv(*command),
{
    match command {
        HookCommandToml::Shell(s) => {
            if is_blank_str(s.as_str()) {
                let v: Vec<String> = Vec::new();
                assert(words(v@) =~= Seq::<Seq<char>>::empty());
                v
            } else {
                let t = trim_str(s.as_str());
                shell_command_argv(t.as_str())
            }
        },
        HookCommandToml::Argv(v) => clone_strings(v),
    }
}

fn clone_opt(s: &Option<String>) -> (r: Option<String>)
    ensures
        r == *s,
{
    match s {
        Some(x) => Some(x.clone()),
        None => None,
    }
}

/// The matcher of a configured hook.
pub fn matcher_from_toml(toml: &HookMatcherToml) -> (r: HookMatcherConfig)
    ensures
        r.tool_name == toml.tool_name,
        r.tool_name_regex == toml.tool_name_regex,
        r.prompt_regex == toml.prompt_regex,
        r.matcher == toml.matcher,
{
    HookMatcherConfig {
        tool_name: clone_opt(&toml.tool_name),
        tool_name_regex: clone_opt(&toml.tool_name_regex),
        prompt_regex: clone_opt(&toml.prompt_regex),
        matcher: clone_opt(&toml.matcher),
    }
}

/// `c` is the command hook configured by `e`: same name, timing, status message and
/// conditions, running the words of `e`'s command, with no prompt and no model.
pub open spec fn hook_from_entry(c: CommandHookConfig, e: HookEntryToml) -> bool {
    &&& c.name == e.name
    &&& c.handler_type == HookHandlerType::Command
    &&& words(c.command@) == spec_command_argv(e.command)
    &&& c.async_ == e.async_
    &&& c.timeout == e.timeout
    &&& c.status_message == e.status_message
    &&& c.once == e.once
    &&& c.matcher.tool_name == e.matcher.tool_name
    &&& c.matcher.tool_name_regex == e.matcher.tool_name_regex
    &&& c.matcher.prompt_regex == e.matcher.prompt_regex
    &&& c.matcher.matcher == e.matcher.matcher
    &&& c.prompt is None
    &&& c.model is None
}

/// The command hook a configured hook describes.
pub fn command_hook_from_entry(entry: &HookEntryToml) -> (r: CommandHookConfig)
    ensures
        hook_from_entry(r, *entry),
{
    CommandHookConfig {
        name: clone_opt(&entry.name),
        handler_type: HookHandlerType::Command,
        command: command_argv(&entry.command),
        prompt: None,
        model: None,
        async_: entry.async_,
        timeout: entry.timeout,
        status_message: clone_opt(&entry.status_message),
        once: entry.once,
        matcher: matcher_from_toml(&entry.matcher),
    }
}

/// `after` is `before` with, for every event, the hooks of `layer` appended in order.
pub open spec fn extended_by(after: CommandHooksConfig, before: CommandHooksConfig, layer: HooksToml) -> bool {
    forall|k: HookEventKey|
        {
            let a = #[trigger] spec_configs_for(after, k);
            let b = spec_configs_for(before, k);
            let e = spec_entries_for(layer, k);
            &&& a.len() == b.len() + e.len()
            &&& a.take(b.len() as int) == b
            &&& forall|i: int| 0 <= i < e.len() ==> hook_from_entry(#[trigger] a[b.len() + i], e[i])
        }
}

/// Appends the hooks of a configuration layer to those of the layers before it.
pub fn extend_command_hooks(dst: &mut CommandHooksConfig, src: &HooksToml)
    ensures
        extended_by(*final(dst), *old(dst), *src),
{
    let ghost start = *dst;
    let mut k: usize = 0;
    while k < EVENT_KEY_COUNT
        invariant
            k <= EVENT_KEY_COUNT,
            forall|j: int|
                0 <= j < k ==> {
                    let a = spec_configs_for(*dst, #[trigger] spec_key_at(j));
                    let b = spec_configs_for(start, spec_key_at(j));
                    let e = spec_entries_for(*src, spec_key_at(j));
                    &&& a.len() == b.len() + e.len()
                    &&& a.take(b.len() as int) == b
                    &&& forall|i: int| 0 <= i < e.len() ==> hook_from_entry(#[trigger] a[b.len() + i], e[i])
                },
            forall|j: int| k <= j < EVENT_KEY_COUNT ==> spec_configs_for(*dst, #[trigger] spec_key_at(j)) == spec_configs_for(start, spec_key_at(j)),
        decreases EVENT_KEY_COUNT - k,
    {
        let key = HookEventKey::at(k);
        let entries = src.entries_for(key);
        let ghost mid = *dst;
        let mut i: usize = 0;
        while i < entries.len()
            invariant
                i <= entries@.len(),
                entries@ == spec_entries_for(*src, key),
                key == spec_key_at(k as int),
                spec_configs_for(*dst, key).len() == spec_configs_for(mid, key).len() + i,
                spec_configs_for(*dst, key).take(spec_configs_for(mid, key).len() as int) == spec_configs_for(mid, key),
                forall|x: int| 0 <= x < i ==> hook_from_entry(
                    #[trigger] spec_configs_for(*dst, key)[spec_configs_for(mid, key).len() + x],
                    entries@[x],
                ),
                forall|j: HookEventKey| j != key ==> #[trigger] spec_configs_for(*dst, j) == spec_configs_for(mid, j),
            decreases entries@.len() - i,
        {
            let hook = command_hook_from_entry(&entries[i]);
            let ghost before = spec_configs_for(*dst, key);
            dst.push_for(key, hook);
            proof {
                let after = spec_configs_for(*dst, key);
                let base = spec_configs_for(mid, key).len();
                assert(after.take(base as int) =~= before.take(base as int));
                assert forall|x: int| 0 <= x < i + 1 implies hook_from_entry(
                    #[trigger] after[base + x],
                    entries@[x],
                ) by {
                    if x < i {
                        assert(after[base + x] == before[base + x]);
                    }
                }
            }
            i = i + 1;
        }
        proof {
            assert forall|j: int| 0 <= j < k + 1 implies {
                let a = spec_configs_for(*dst, #[trigger] spec_key_at(j));
                let b = spec_configs_for(start, spec_key_at(j));
                let e = spec_entries_for(*src, spec_key_at(j));
                &&& a.len() == b.len() + e.len()
                &&& a.take(b.len() as int) == b
                &&& forall|i: int| 0 <= i < e.len() ==> hook_from_entry(#[trigger] a[b.len() + i], e[i])
            } by {
                if j < k {
                    crate::hooks::types::lemma_key_at_distinct(j, k as int);
                    assert(spec_configs_for(*dst, spec_key_at(j)) == spec_configs_for(mid, spec_key_at(j)));
                } else {
                    assert(spec_configs_for(mid, key) == spec_configs_for(start, key));
                }
            }
            assert forall|j: int| k + 1 <= j < EVENT_KEY_COUNT implies spec_configs_for(*dst, #[trigger] spec_key_at(j)) == spec_configs_for(start, spec_key_at(j)) by {
                crate::hooks::types::lemma_key_at_distinct(k as int, j);
            }
        }
        k = k + 1;
    }
    proof {
        assert forall|key: HookEventKey| #[trigger] spec_configs_for(*dst, key) == spec_configs_for(*dst, key) implies {
            let a = spec_configs_for(*dst, key);
            let b = spec_configs_for(start, key);
            let e = spec_entries_for(*src, key);
            &&& a.len() == b.len() + e.len()
            &&& a.take(b.len() as int) == b
            &&& forall|i: int| 0 <= i < e.len() ==> hook_from_entry(#[trigger] a[b.len() + i], e[i])
        } by {
            crate::hooks::types::lemma_key_at_index(key);
            let j = crate::hooks::types::spec_key_index(key);
            assert(spec_key_at(j) == key);
        }
    }
}

/// The hooks of configuration layers, lowest precedence first: each event's hooks are those
/// of every layer in turn, in the order each layer lists them. A layer without hooks adds
/// nothing.
pub fn command_hooks_from_layers(layers: &Vec<Option<HooksToml>>) -> (r: CommandHooksConfig)
    ensures
        exists|steps: Seq<CommandHooksConfig>|
            steps.len() == layers@.len() + 1 && (forall|k: HookEventKey|
                #[trigger] spec_configs_for(steps[0], k).len() == 0) && steps.last() == r && forall|i: int|
                0 <= i < layers@.len() ==> match #[trigger] layers@[i] {
                    Some(l) => extended_by(steps[i + 1], steps[i], l),
                    None => steps[i + 1] == steps[i],
                },
{
    let mut hooks = CommandHooksConfig::empty();
    let ghost mut steps: Seq<CommandHooksConfig> = seq![hooks];
    let mut i: usize = 0;
    while i < layers.len()
        invariant
            i <= layers@.len(),
            steps.len() == i + 1,
            forall|k: HookEventKey| #[trigger] spec_configs_for(steps[0], k).len() == 0,
            steps.last() == hooks,
            forall|x: int|
                0 <= x < i ==> match #[trigger] layers@[x] {
                    Some(l) => extended_by(steps[x + 1], steps[x], l),
                    None => steps[x + 1] == steps[x],
                },
        decreases layers@.len() - i,
    {
        match &layers[i] {
            Some(l) => {
                extend_command_hooks(&mut hooks, l);
            },
            None => {},
        }
        proof {
            let prev = steps;
            steps = steps.push(hooks);
            assert forall|x: int|
                0 <= x < i + 1 implies match #[trigger] layers@[x] {
                    Some(l) => extended_by(steps[x + 1], steps[x], l),
                    None => steps[x + 1] == steps[x],
                } by {
                if x < i {
                    assert(steps[x] == prev[x] && steps[x + 1] == prev[x + 1]);
                }
            }
        }
        i = i + 1;
    }
    hooks
}

/// `a` is `b` followed by the hooks made from the entries `e`, in order.
pub open spec fn appended(a: Seq<CommandHookConfig>, b: Seq<CommandHookConfig>, e: Seq<HookEntryToml>) -> bool {
    &&& a.len() == b.len() + e.len()
    &&& a.take(b.len() as int) == b
    &&& forall|i: int| 0 <= i < e.len() ==> hook_from_entry(#[trigger] a[b.len() + i], e[i])
}

/// Adding a configuration layer appends, to each event's hooks, the hooks made from that same
/// event's entries in the layer, in the layer's order; the hooks already there stay first.
pub proof fn law_layer_appends_each_event(
    after: CommandHooksConfig,
    before: CommandHooksConfig,
    layer: HooksToml,
)
    requires
        extended_by(after, before, layer),
    ensures
        appended(after.session_start@, before.session_start@, layer.session_start@),
        appended(after.session_end@, before.session_end@, layer.session_end@),
        appended(after.user_prompt_submit@, before.user_prompt_submit@, layer.user_prompt_submit@),
        appended(after.pre_tool_use@, before.pre_tool_use@, layer.pre_tool_use@),
        appended(after.permission_request@, before.permission_request@, layer.permission_request@),
        appended(after.notification@, before.notification@, layer.notification@),
        appended(after.post_tool_use@, before.post_tool_use@, layer.post_tool_use@),
        appended(after.post_tool_use_failure@, before.post_tool_use_failure@, layer.post_tool_use_failure@),
        appended(after.stop@, before.stop@, layer.stop@),
        appended(after.teammate_idle@, before.teammate_idle@, layer.teammate_idle@),
        appended(after.task_completed@, before.task_completed@, layer.task_completed@),
        appended(after.config_change@, before.config_change@, layer.config_change@),
        appended(after.subagent_start@, before.subagent_start@, layer.subagent_start@),
        appended(after.subagent_stop@, before.subagent_stop@, layer.subagent_stop@),
        appended(after.pre_compact@, before.pre_compact@, layer.pre_compact@),
        appended(after.worktree_create@, before.worktree_create@, layer.worktree_create@),
        appended(after.worktree_remove@, before.worktree_remove@, layer.worktree_remove@),
{
    assert(spec_configs_for(after, HookEventKey::SessionStart) == after.session_start@);
    assert(spec_configs_for(after, HookEventKey::SessionEnd) == after.session_end@);
    assert(spec_configs_for(after, HookEventKey::UserPromptSubmit) == after.user_prompt_submit@);
    assert(spec_configs_for(after, HookEventKey::PreToolUse) == after.pre_tool_use@);
    assert(spec_configs_for(after, HookEventKey::PermissionRequest) == after.permission_request@);
    assert(spec_configs_for(after, HookEventKey::Notification) == after.notification@);
    assert(spec_configs_for(after, HookEventKey::PostToolUse) == after.post_tool_use@);
    assert(spec_configs_for(after, HookEventKey::PostToolUseFailure) == after.post_tool_use_failure@);
    assert(spec_configs_for(after, HookEventKey::Stop) == after.stop@);
    assert(spec_configs_for(after, HookEventKey::TeammateIdle) == after.teammate_idle@);
    assert(spec_configs_for(after, HookEventKey::TaskCompleted) == after.task_completed@);
    assert(spec_configs_for(after, HookEventKey::ConfigChange) == after.config_change@);
    assert(spec_configs_for(after, HookEventKey::SubagentStart) == after.subagent_start@);
    assert(spec_configs_for(after, HookEventKey::SubagentStop) == after.subagent_stop@);
    assert(spec_configs_for(after, HookEventKey::PreCompact) == after.pre_compact@);
    assert(spec_configs_for(after, HookEventKey::WorktreeCreate) == after.worktree_create@);
    assert(spec_configs_for(after, HookEventKey::WorktreeRemove) == after.worktree_remove@);
}

} // verus!
