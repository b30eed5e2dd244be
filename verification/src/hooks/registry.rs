//! The hook registry: hooks compiled from configuration, per event and per scope, and the
//! decision of which of them run when an event is dispatched.
use crate::decimal::{decimal, usize_to_decimal, u64_to_decimal};
use crate::hooks::config::{
    spec_configs_for, CommandHookConfig, CommandHooksConfig, HookHandlerType, HookMatcherConfig,
    HooksConfig,
};
use crate::hooks::output::non_blank;
use crate::hooks::types::{
    is_error_result, is_plain_success, spec_key_at, spec_key_index, spec_key_name, spec_matcher_text,
    spec_supports_matchers, spec_supports_prompt_and_agent_hooks, spec_tool_name,
    spec_user_prompt, HookEvent, HookEventKey, HookResponse, HookResult, HookResultControl,
    EVENT_KEY_COUNT,
};
use crate::text::{
    chars_lt, lemma_seq_lt_irrefl, lemma_seq_lt_total, lemma_seq_lt_trans, seq_lt,
};
use crate::text::{chars_eq, chars_of, push_str, concat, extend_chars, is_blank_str, owned, str_eq, string_of, trim};
use vstd::prelude::*;

verus! {

/// The error text of `regex::Regex::new` for a pattern, none when the pattern compiles.
pub uninterp spec fn regex_new_error(pattern: Seq<char>) -> Option<Seq<char>>;

/// Whether the regex compiled from `pattern` matches somewhere in `text` (`Regex::is_match`).
pub uninterp spec fn regex_is_match(pattern: Seq<char>, text: Seq<char>) -> bool;

/// A hexadecimal digit in lower case, as serde_json writes it.
pub open spec fn hex_digit(n: u32) -> char {
    if n < 10 {
        (('0' as u32) + n) as char
    } else {
        (('a' as u32) + n - 10) as char
    }
}

/// How serde_json writes one character inside a JSON string: quote and backslash escaped,
/// backspace, tab, line feed, form feed and carriage return by their short escapes, the other
/// control characters below U+0020 as `\u00XX` (lower-case hex), and every other character as
/// itself.
pub open spec fn json_escape_char(c: char) -> Seq<char> {
    let u = c as u32;
    if c == '"' {
        seq!['\\', '"']
    } else if c == '\\' {
        seq!['\\', '\\']
    } else if u == 8 {
        seq!['\\', 'b']
    } else if u == 9 {
        seq!['\\', 't']
    } else if u == 10 {
        seq!['\\', 'n']
    } else if u == 12 {
        seq!['\\', 'f']
    } else if u == 13 {
        seq!['\\', 'r']
    } else if u < 32 {
        seq!['\\', 'u', '0', '0', hex_digit(u / 16), hex_digit(u % 16)]
    } else {
        seq![c]
    }
}

/// The escaped characters of `s`, in order.
pub open spec fn json_escaped(s: Seq<char>) -> Seq<char>
    decreases s.len(),
{
    if s.len() == 0 {
        seq![]
    } else {
        json_escaped(s.drop_last()) + json_escape_char(s.last())
    }
}

/// The JSON text of a string (`serde_json::to_string` of a `String`): the escaped characters
/// between quotes.
pub open spec fn json_string_text(s: Seq<char>) -> Seq<char> {
    seq!['"'] + json_escaped(s) + seq!['"']
}

/// The JSON texts of strings, separated by commas.
pub open spec fn json_items(v: Seq<Seq<char>>) -> Seq<char>
    decreases v.len(),
{
    if v.len() == 0 {
        seq![]
    } else if v.len() == 1 {
        json_string_text(v[0])
    } else {
        json_items(v.drop_last()) + seq![','] + json_string_text(v.last())
    }
}

/// The JSON text of a list of strings (`serde_json::to_string` of a `Vec<String>`, compact):
/// the strings' texts between brackets, separated by commas.
pub open spec fn json_string_list_text(v: Seq<Seq<char>>) -> Seq<char> {
    seq!['['] + json_items(v) + seq![']']
}

/// Compiles a pattern with `regex::Regex::new` and gives the error's text when it fails.
#[verifier::external_body]
fn regex_error(pattern: &str) -> (r: Option<String>)
    ensures
        match r {
            Some(e) => regex_new_error(pattern@) == Some(e@),
            None => regex_new_error(pattern@) is None,
        },
{
    regex::Regex::new(pattern).err().map(|e| e.to_string())
}

/// Compiles a pattern that is known to compile and tests it against `text` with
/// `Regex::is_match`.
#[verifier::external_body]
fn regex_match(pattern: &str, text: &str) -> (r: bool)
    requires
        regex_new_error(pattern@) is None,
    ensures
        r == regex_is_match(pattern@, text@),
{
    match regex::Regex::new(pattern) {
        Ok(re) => re.is_match(text),
        Err(_) => false,
    }
}

/// The JSON text of a string (`serde_json::to_string` with its compact formatter), which
/// cannot fail for a string; the contract states serde_json's escaping.
#[verifier::external_body]
fn json_string(s: &str) -> (r: String)
    ensures
        r@ == json_string_text(s@),
{
    serde_json::to_string(s).unwrap_or_default()
}

/// The JSON text of a list of strings (`serde_json::to_string` with its compact formatter),
/// which cannot fail for strings; the contract states the brackets, commas and escaping.
#[verifier::external_body]
fn json_string_list(v: &Vec<String>) -> (r: String)
    ensures
        r@ == json_string_list_text(v@.map_values(|s: String| s@)),
{
    serde_json::to_string(v).unwrap_or_default()
}

/// What a hook runs.
#[derive(Debug)]
pub enum HookHandler {
    Command { argv: Vec<String>, async_: bool },
    Prompt { prompt: String, model: Option<String> },
    Agent { prompt: String, model: Option<String> },
}

/// The view of a handler.
pub enum HandlerModel {
    Command { argv: Seq<Seq<char>>, async_: bool },
    Prompt { prompt: Seq<char>, model: Option<Seq<char>> },
    Agent { prompt: Seq<char>, model: Option<Seq<char>> },
}

/// The views of a list of strings.
pub open spec fn strings_view(v: Seq<String>) -> Seq<Seq<char>> {
    v.map_values(|s: String| s@)
}

/// The view of an optional string.
pub open spec fn opt_view(s: Option<String>) -> Option<Seq<char>> {
    match s {
        Some(x) => Some(x@),
        None => None,
    }
}

/// The view of a handler.
pub open spec fn handler_view(h: HookHandler) -> HandlerModel {
    match h {
        HookHandler::Command { argv, async_ } => HandlerModel::Command {
            argv: strings_view(argv@),
            async_,
        },
        HookHandler::Prompt { prompt, model } => HandlerModel::Prompt {
            prompt: prompt@,
            model: opt_view(model),
        },
        HookHandler::Agent { prompt, model } => HandlerModel::Agent {
            prompt: prompt@,
            model: opt_view(model),
        },
    }
}

/// The conditions of a hook, with every pattern checked to compile.
#[derive(Debug)]
pub struct CompiledMatcher {
    pub tool_name: Option<String>,
    pub tool_name_regex: Option<String>,
    pub prompt_regex: Option<String>,
    pub matcher_regex: Option<String>,
}

/// The view of a compiled matcher.
pub struct MatcherModel {
    pub tool_name: Option<Seq<char>>,
    pub tool_name_regex: Option<Seq<char>>,
    pub prompt_regex: Option<Seq<char>>,
    pub matcher_regex: Option<Seq<char>>,
}

/// The view of a compiled matcher.
pub open spec fn matcher_view(m: CompiledMatcher) -> MatcherModel {
    MatcherModel {
        tool_name: opt_view(m.tool_name),
        tool_name_regex: opt_view(m.tool_name_regex),
        prompt_regex: opt_view(m.prompt_regex),
        matcher_regex: opt_view(m.matcher_regex),
    }
}

/// A matcher that holds no condition.
pub open spec fn empty_matcher() -> MatcherModel {
    MatcherModel { tool_name: None, tool_name_regex: None, prompt_regex: None, matcher_regex: None }
}

/// Every pattern of the matcher compiles.
pub open spec fn matcher_wf(m: MatcherModel) -> bool {
    &&& (m.tool_name_regex matches Some(p) ==> regex_new_error(p) is None)
    &&& (m.prompt_regex matches Some(p) ==> regex_new_error(p) is None)
    &&& (m.matcher_regex matches Some(p) ==> regex_new_error(p) is None)
}

/// Whether an event meets a matcher: its matcher text matches the `matcher` pattern, its tool
/// name is the required one and matches the tool name pattern, and its prompt matches the
/// prompt pattern, each where the matcher has that condition. An event without the text a
/// condition reads does not meet it.
pub open spec fn spec_matches(m: MatcherModel, e: HookEvent) -> bool {
    &&& (m.matcher_regex matches Some(p) ==> (spec_matcher_text(e) matches Some(t)
        && regex_is_match(p, t)))
    &&& (m.tool_name matches Some(n) ==> spec_tool_name(e) == Some(n))
    &&& (m.tool_name_regex matches Some(p) ==> (spec_tool_name(e) matches Some(t)
        && regex_is_match(p, t)))
    &&& (m.prompt_regex matches Some(p) ==> (spec_user_prompt(e) matches Some(t)
        && regex_is_match(p, t)))
}

/// A configured pattern, trimmed, and dropped when blank.
pub open spec fn spec_pattern(p: Option<String>) -> Option<Seq<char>> {
    non_blank(opt_view(p))
}

/// The result of compiling an optional pattern: none when there is none, the pattern when it
/// compiles, the error `invalid <field>: <error>` otherwise.
pub open spec fn spec_compile_optional(p: Option<Seq<char>>, field: Seq<char>) -> Result<
    Option<Seq<char>>,
    Seq<char>,
> {
    match p {
        None => Ok(None),
        Some(x) => match regex_new_error(x) {
            None => Ok(Some(x)),
            Some(e) => Err("invalid "@ + field + ": "@ + e),
        },
    }
}

/// The matcher pattern, where `*` means no condition.
pub open spec fn spec_matcher_pattern(p: Option<String>) -> Option<Seq<char>> {
    match spec_pattern(p) {
        Some(x) => if x == "*"@ {
            None
        } else {
            Some(x)
        },
        None => None,
    }
}

/// What compiling a matcher configuration yields: the first error among the `matcher`, the
/// tool name pattern and the prompt pattern, in that order, or the compiled matcher.
pub open spec fn spec_compile(c: HookMatcherConfig) -> Result<MatcherModel, Seq<char>> {
    match spec_compile_optional(spec_matcher_pattern(c.matcher), "matcher"@) {
        Err(e) => Err(e),
        Ok(mr) => match spec_compile_optional(spec_pattern(c.tool_name_regex), "tool_name_regex"@) {
            Err(e) => Err(e),
            Ok(tr) => match spec_compile_optional(spec_pattern(c.prompt_regex), "prompt_regex"@) {
                Err(e) => Err(e),
                Ok(pr) => Ok(
                    MatcherModel {
                        tool_name: spec_pattern(c.tool_name),
                        tool_name_regex: tr,
                        prompt_regex: pr,
                        matcher_regex: mr,
                    },
                ),
            },
        },
    }
}

fn pattern_of(p: &Option<String>) -> (r: Option<String>)
    ensures
        opt_view(r) == spec_pattern(*p),
{
    match p {
        Some(x) => {
            if is_blank_str(x.as_str()) {
                None
            } else {
                Some(crate::text::trim_str(x.as_str()))
            }
        },
        None => None,
    }
}

/// Checks an optional pattern.
fn compile_optional_regex(pattern: Option<String>, field_name: &str) -> (r: Result<
    Option<String>,
    String,
>)
    ensures
        match r {
            Ok(p) => spec_compile_optional(opt_view(pattern), field_name@) == Ok::<
                Option<Seq<char>>,
                Seq<char>,
            >(opt_view(p)),
            Err(e) => spec_compile_optional(opt_view(pattern), field_name@) == Err::<
                Option<Seq<char>>,
                Seq<char>,
            >(e@),
        },
{
    match pattern {
        None => Ok(None),
        Some(x) => match regex_error(x.as_str()) {
            None => Ok(Some(x)),
            Some(e) => {
                let a = concat("invalid ", field_name);
                let b = concat(a.as_str(), ": ");
                Err(concat(b.as_str(), e.as_str()))
            },
        },
    }
}

impl CompiledMatcher {
    /// Compiles a matcher configuration.
    pub fn compile(matcher: &HookMatcherConfig) -> (r: Result<CompiledMatcher, String>)
        ensures
            match r {
                Ok(m) => spec_compile(*matcher) == Ok::<MatcherModel, Seq<char>>(matcher_view(m)),
                Err(e) => spec_compile(*matcher) == Err::<MatcherModel, Seq<char>>(e@),
            },
            r matches Ok(m) ==> matcher_wf(matcher_view(m)),
    {
        let mp = pattern_of(&matcher.matcher);
        let mp = match mp {
            Some(x) => if str_eq(x.as_str(), "*") {
                None
            } else {
                Some(x)
            },
            None => None,
        };
        let matcher_regex = match compile_optional_regex(mp, "matcher") {
            Ok(p) => p,
            Err(e) => {
                return Err(e);
            },
        };
        let tool_name_regex = match compile_optional_regex(
            pattern_of(&matcher.tool_name_regex),
            "tool_name_regex",
        ) {
            Ok(p) => p,
            Err(e) => {
                return Err(e);
            },
        };
        let prompt_regex = match compile_optional_regex(
            pattern_of(&matcher.prompt_regex),
            "prompt_regex",
        ) {
            Ok(p) => p,
            Err(e) => {
                return Err(e);
            },
        };
        Ok(
            CompiledMatcher {
                tool_name: pattern_of(&matcher.tool_name),
                tool_name_regex,
                prompt_regex,
                matcher_regex,
            },
        )
    }

    /// A matcher with no condition.
    pub fn empty() -> (m: CompiledMatcher)
        ensures
            matcher_view(m) == empty_matcher(),
    {
        CompiledMatcher { tool_name: None, tool_name_regex: None, prompt_regex: None, matcher_regex: None }
    }

    /// Whether an event meets this matcher.
    pub fn matches(&self, event: &HookEvent) -> (r: bool)
        requires
            matcher_wf(matcher_view(*self)),
        ensures
            r == spec_matches(matcher_view(*self), *event),
    {
        if let Some(p) = &self.matcher_regex {
            match event.matcher_text_for_matcher() {
                None => {
                    return false;
                },
                Some(t) => {
                    if !regex_match(p.as_str(), t) {
                        return false;
                    }
                },
            }
        }
        if let Some(n) = &self.tool_name {
            match event.tool_name_for_matcher() {
                None => {
                    return false;
                },
                Some(t) => {
                    if !str_eq(t, n.as_str()) {
                        return false;
                    }
                },
            }
        }
        if let Some(p) = &self.tool_name_regex {
            match event.tool_name_for_matcher() {
                None => {
                    return false;
                },
                Some(t) => {
                    if !regex_match(p.as_str(), t) {
                        return false;
                    }
                },
            }
        }
        if let Some(p) = &self.prompt_regex {
            match event.user_prompt_for_matcher() {
                None => {
                    return false;
                },
                Some(t) => {
                    if !regex_match(p.as_str(), t) {
                        return false;
                    }
                },
            }
        }
        true
    }
}

/// A hook compiled from its configuration.
#[derive(Debug)]
pub struct Hook {
    pub name: String,
    pub handler_identity: String,
    pub handler: HookHandler,
    /// Timeout in seconds.
    pub timeout: Option<u64>,
    pub matcher: CompiledMatcher,
    pub once: bool,
    pub config_error: Option<String>,
}

/// The view of a hook.
pub struct HookModel {
    pub name: Seq<char>,
    pub identity: Seq<char>,
    pub handler: HandlerModel,
    pub timeout: Option<u64>,
    pub matcher: MatcherModel,
    pub once: bool,
    pub config_error: Option<Seq<char>>,
}

/// The view of a hook.
pub open spec fn hook_view(h: Hook) -> HookModel {
    HookModel {
        name: h.name@,
        identity: h.handler_identity@,
        handler: handler_view(h.handler),
        timeout: h.timeout,
        matcher: matcher_view(h.matcher),
        once: h.once,
        config_error: opt_view(h.config_error),
    }
}

/// The views of a list of hooks.
pub open spec fn hooks_view(v: Seq<Hook>) -> Seq<HookModel> {
    v.map_values(|h: Hook| hook_view(h))
}

/// The text of a boolean.
pub open spec fn bool_text(b: bool) -> Seq<char> {
    if b {
        "true"@
    } else {
        "false"@
    }
}

/// The JSON text of an optional model name.
pub open spec fn model_json(m: Option<Seq<char>>) -> Seq<char> {
    match m {
        Some(s) => json_string_text(s),
        None => "null"@,
    }
}

/// The text that identifies what a hook does, so that identical hooks run once per dispatch:
/// the event, the handler kind and its inputs, the timeout and whether the hook runs once.
pub open spec fn spec_identity(
    key: HookEventKey,
    handler: HandlerModel,
    timeout: Option<u64>,
    once: bool,
) -> Seq<char> {
    let timeout_key = match timeout {
        Some(s) => decimal(s as nat),
        None => "none"@,
    };
    match handler {
        HandlerModel::Command { argv, async_ } => spec_key_name(key) + "|command|async="@
            + bool_text(async_) + "|timeout="@ + timeout_key + "|once="@ + bool_text(once)
            + "|argv="@ + json_string_list_text(argv),
        HandlerModel::Prompt { prompt, model } => spec_key_name(key) + "|prompt|timeout="@
            + timeout_key + "|once="@ + bool_text(once) + "|model="@ + model_json(model)
            + "|prompt="@ + json_string_text(prompt),
        HandlerModel::Agent { prompt, model } => spec_key_name(key) + "|agent|timeout="@
            + timeout_key + "|once="@ + bool_text(once) + "|model="@ + model_json(model)
            + "|prompt="@ + json_string_text(prompt),
    }
}

/// The key under which the `index`-th hook of an event runs once: `<event>-<index + 1>`,
/// preceded by `<prefix>:` for a non-empty prefix.
pub open spec fn spec_once_key(key: HookEventKey, index: nat, prefix: Option<Seq<char>>) -> Seq<
    char,
> {
    let base = spec_key_name(key) + seq!['-'] + decimal(index + 1);
    match prefix {
        Some(p) => if p.len() > 0 {
            p + seq![':'] + base
        } else {
            base
        },
        None => base,
    }
}

/// Whether a command configuration has something to run: a first word that is not blank.
pub open spec fn command_runnable(argv: Seq<String>) -> bool {
    argv.len() > 0 && trim(argv[0]@).len() > 0
}

/// The hook compiled from the `index`-th configuration of an event, none when the
/// configuration has nothing to run. A matcher that does not compile, or a prompt or agent
/// hook on an event that takes none, gives a hook that reports its error when dispatched.
pub open spec fn spec_hook_from_config(
    c: CommandHookConfig,
    key: HookEventKey,
    index: nat,
    prefix: Option<Seq<char>>,
) -> Option<HookModel> {
    let once_key = spec_once_key(key, index, prefix);
    let name = match c.name {
        Some(n) => n@,
        None => once_key,
    };
    let (matcher, matcher_error) = if spec_supports_matchers(key) {
        match spec_compile(c.matcher) {
            Ok(m) => (m, None::<Seq<char>>),
            Err(e) => (empty_matcher(), Some(e)),
        }
    } else {
        (empty_matcher(), None::<Seq<char>>)
    };
    let prompt = spec_pattern(c.prompt);
    let unsupported = !spec_supports_prompt_and_agent_hooks(key);
    let handler_result: Option<(HandlerModel, Option<Seq<char>>)> = match c.handler_type {
        HookHandlerType::Command => if command_runnable(c.command@) {
            Some((HandlerModel::Command { argv: strings_view(c.command@), async_: c.async_ }, None))
        } else {
            None
        },
        HookHandlerType::Prompt => match prompt {
            None => None,
            Some(p) => if unsupported {
                Some(
                    (
                        HandlerModel::Command { argv: seq![], async_: false },
                        Some("prompt hooks are not supported for "@ + spec_key_name(key)),
                    ),
                )
            } else {
                Some((HandlerModel::Prompt { prompt: p, model: opt_view(c.model) }, None))
            },
        },
        HookHandlerType::Agent => match prompt {
            None => None,
            Some(p) => if unsupported {
                Some(
                    (
                        HandlerModel::Command { argv: seq![], async_: false },
                        Some("agent hooks are not supported for "@ + spec_key_name(key)),
                    ),
                )
            } else {
                Some((HandlerModel::Agent { prompt: p, model: opt_view(c.model) }, None))
            },
        },
    };
    match handler_result {
        None => None,
        Some((handler, handler_error)) => Some(
            HookModel {
                name,
                identity: spec_identity(key, handler, c.timeout, c.once),
                handler,
                timeout: c.timeout,
                matcher,
                once: c.once,
                config_error: match matcher_error {
                    Some(e) => Some(e),
                    None => handler_error,
                },
            },
        ),
    }
}

/// A copy of a list of strings.
pub fn clone_strings(v: &Vec<String>) -> (r: Vec<String>)
    ensures
        r@ == v@,
{
    let mut r: Vec<String> = Vec::new();
    let mut i: usize = 0;
    while i < v.len()
        invariant
            i <= v.len(),
            r@ == v@.take(i as int),
        decreases v.len() - i,
    {
        r.push(v[i].clone());
        assert(v@.take(i as int).push(v@[i as int]) =~= v@.take(i + 1));
        i = i + 1;
    }
    assert(v@.take(v.len() as int) =~= v@);
    r
}

fn clone_opt(s: &Option<String>) -> (r: Option<String>)
    ensures
        r == *s,
{
    match s {
        Some(x) => Some(x.clone()),
        None => None,
    }
}

impl HookHandler {
    /// A copy of this handler.
    pub fn duplicate(&self) -> (r: HookHandler)
        ensures
            handler_view(r) == handler_view(*self),
    {
        match self {
            HookHandler::Command { argv, async_ } => HookHandler::Command {
                argv: clone_strings(argv),
                async_: *async_,
            },
            HookHandler::Prompt { prompt, model } => HookHandler::Prompt {
                prompt: prompt.clone(),
                model: clone_opt(model),
            },
            HookHandler::Agent { prompt, model } => HookHandler::Agent {
                prompt: prompt.clone(),
                model: clone_opt(model),
            },
        }
    }
}

fn bool_str(b: bool) -> (r: &'static str)
    ensures
        r@ == bool_text(b),
{
    if b {
        "true"
    } else {
        "false"
    }
}

/// The text that identifies what a hook does.
pub fn hook_handler_identity(
    event_key: HookEventKey,
    handler: &HookHandler,
    timeout: Option<u64>,
    once: bool,
) -> (r: String)
    ensures
        r@ == spec_identity(event_key, handler_view(*handler), timeout, once),
{
    let timeout_key = match timeout {
        Some(secs) => {
            let d = u64_to_decimal(secs);
            string_of(d.as_slice())
        },
        None => owned("none"),
    };
    let key = event_key.as_str();
    match handler {
        HookHandler::Command { argv, async_ } => {
            let argv_json = json_string_list(argv);
            let mut out = chars_of(key);
            push_str(&mut out, "|command|async=");
            push_str(&mut out, bool_str(*async_));
            push_str(&mut out, "|timeout=");
            push_str(&mut out, timeout_key.as_str());
            push_str(&mut out, "|once=");
            push_str(&mut out, bool_str(once));
            push_str(&mut out, "|argv=");
            push_str(&mut out, argv_json.as_str());
            string_of(out.as_slice())
        },
        HookHandler::Prompt { prompt, model } => {
            let prompt_json = json_string(prompt.as_str());
            let model_text = match model {
                Some(m) => json_string(m.as_str()),
                None => owned("null"),
            };
            let mut out = chars_of(key);
            push_str(&mut out, "|prompt|timeout=");
            push_str(&mut out, timeout_key.as_str());
            push_str(&mut out, "|once=");
            push_str(&mut out, bool_str(once));
            push_str(&mut out, "|model=");
            push_str(&mut out, model_text.as_str());
            push_str(&mut out, "|prompt=");
            push_str(&mut out, prompt_json.as_str());
            string_of(out.as_slice())
        },
        HookHandler::Agent { prompt, model } => {
            let prompt_json = json_string(prompt.as_str());
            let model_text = match model {
                Some(m) => json_string(m.as_str()),
                None => owned("null"),
            };
            let mut out = chars_of(key);
            push_str(&mut out, "|agent|timeout=");
            push_str(&mut out, timeout_key.as_str());
            push_str(&mut out, "|once=");
            push_str(&mut out, bool_str(once));
            push_str(&mut out, "|model=");
            push_str(&mut out, model_text.as_str());
            push_str(&mut out, "|prompt=");
            push_str(&mut out, prompt_json.as_str());
            string_of(out.as_slice())
        },
    }
}

/// Compiles the `index`-th configured hook of an event.
pub fn hook_from_config(
    config: &CommandHookConfig,
    event_key: HookEventKey,
    index: usize,
    once_key_prefix: Option<&str>,
) -> (r: Option<Hook>)
    requires
        index < usize::MAX,
    ensures
        match r {
            Some(h) => spec_hook_from_config(
                *config,
                event_key,
                index as nat,
                match once_key_prefix {
                    Some(p) => Some(p@),
                    None => None,
                },
            ) == Some(hook_view(h)),
            None => spec_hook_from_config(
                *config,
                event_key,
                index as nat,
                match once_key_prefix {
                    Some(p) => Some(p@),
                    None => None,
                },
            ) is None,
        },
        r matches Some(h) ==> matcher_wf(matcher_view(h.matcher)),
{
    let ghost prefix_view = match once_key_prefix {
        Some(p) => Some(p@),
        None => None,
    };
    let mut base = chars_of(event_key.as_str());
    base.push('-');
    let n = usize_to_decimal(index + 1);
    push_str(&mut base, n.as_str());
    let once_key = match once_key_prefix {
        Some(prefix) => {
            let pv = chars_of(prefix);
            if pv.len() > 0 {
                let mut k = pv;
                k.push(':');
                extend_chars(&mut k, base.as_slice());
                k
            } else {
                base
            }
        },
        None => base,
    };
    assert(once_key@ == spec_once_key(event_key, index as nat, prefix_view));
    let name = match &config.name {
        Some(n) => n.clone(),
        None => string_of(once_key.as_slice()),
    };
    let (matcher, matcher_error) = if event_key.supports_matchers() {
        match CompiledMatcher::compile(&config.matcher) {
            Ok(m) => (m, None),
            Err(e) => (CompiledMatcher::empty(), Some(e)),
        }
    } else {
        (CompiledMatcher::empty(), None)
    };
    let prompt = pattern_of(&config.prompt);
    let unsupported = !event_key.supports_prompt_and_agent_hooks();
    let (handler, handler_error): (HookHandler, Option<String>) = match config.handler_type {
        HookHandlerType::Command => {
            if config.command.len() == 0 || is_blank_str(config.command[0].as_str()) {
                return None;
            }
            (HookHandler::Command { argv: clone_strings(&config.command), async_: config.async_ }, None)
        },
        HookHandlerType::Prompt => match prompt {
            None => {
                return None;
            },
            Some(p) => {
                if unsupported {
                    (
                        HookHandler::Command { argv: Vec::new(), async_: false },
                        Some(concat("prompt hooks are not supported for ", event_key.as_str())),
                    )
                } else {
                    (HookHandler::Prompt { prompt: p, model: clone_opt(&config.model) }, None)
                }
            },
        },
        HookHandlerType::Agent => match prompt {
            None => {
                return None;
            },
            Some(p) => {
                if unsupported {
                    (
                        HookHandler::Command { argv: Vec::new(), async_: false },
                        Some(concat("agent hooks are not supported for ", event_key.as_str())),
                    )
                } else {
                    (HookHandler::Agent { prompt: p, model: clone_opt(&config.model) }, None)
                }
            },
        },
    };
    proof {
        if handler is Command && config.handler_type != HookHandlerType::Command {
            assert(strings_view(Seq::<String>::empty()) =~= Seq::<Seq<char>>::empty());
        }
    }
    let config_error = match matcher_error {
        Some(e) => Some(e),
        None => handler_error,
    };
    let handler_identity = hook_handler_identity(event_key, &handler, config.timeout, config.once);
    Some(
        Hook {
            name,
            handler_identity,
            handler,
            timeout: config.timeout,
            matcher,
            once: config.once,
            config_error,
        },
    )
}

/// The hooks compiled from the configurations of one event, skipping those with nothing to
/// run; the `i`-th configuration is compiled with index `i`.
pub open spec fn spec_build_hooks(
    configs: Seq<CommandHookConfig>,
    key: HookEventKey,
    prefix: Option<Seq<char>>,
) -> Seq<HookModel>
    decreases configs.len(),
{
    if configs.len() == 0 {
        seq![]
    } else {
        let rest = spec_build_hooks(configs.drop_last(), key, prefix);
        match spec_hook_from_config(configs.last(), key, (configs.len() - 1) as nat, prefix) {
            Some(h) => rest.push(h),
            None => rest,
        }
    }
}

/// Every matcher of the hooks compiles.
pub open spec fn hooks_wf(hs: Seq<Hook>) -> bool {
    forall|i: int| 0 <= i < hs.len() ==> matcher_wf(#[trigger] matcher_view(hs[i].matcher))
}

/// Compiles the configured hooks of one event.
pub fn build_hooks_with_prefix(
    configs: &Vec<CommandHookConfig>,
    event_key: HookEventKey,
    prefix: Option<&str>,
) -> (r: Vec<Hook>)
    ensures
        hooks_view(r@) == spec_build_hooks(
            configs@,
            event_key,
            match prefix {
                Some(p) => Some(p@),
                None => None,
            },
        ),
        hooks_wf(r@),
{
    let ghost pv = match prefix {
        Some(p) => Some(p@),
        None => None,
    };
    let mut out: Vec<Hook> = Vec::new();
    let mut i: usize = 0;
    while i < configs.len()
        invariant
            i <= configs.len(),
            hooks_view(out@) == spec_build_hooks(configs@.take(i as int), event_key, pv),
            hooks_wf(out@),
            pv == match prefix {
                Some(p) => Some(p@),
                None => None,
            },
        decreases configs.len() - i,
    {
        assert(configs@.take(i + 1).drop_last() =~= configs@.take(i as int));
        assert(configs@.take(i + 1).last() == configs@[i as int]);
        match hook_from_config(&configs[i], event_key, i, prefix) {
            Some(h) => {
                let ghost prev = out@;
                let ghost hv = hook_view(h);
                let ghost hm = h.matcher;
                assert(matcher_wf(matcher_view(hm)));
                out.push(h);
                assert(hooks_view(out@) =~= hooks_view(prev).push(hv));
                assert forall|j: int| 0 <= j < out@.len() implies matcher_wf(
                    #[trigger] matcher_view(out@[j].matcher),
                ) by {
                    if j < prev.len() {
                        assert(out@[j] == prev[j]);
                        assert(matcher_wf(matcher_view(prev[j].matcher)));
                    } else {
                        assert(out@[j].matcher == hm);
                    }
                }
                assert(spec_hook_from_config(configs@[i as int], event_key, i as nat, pv) == Some(hv));
                assert(spec_build_hooks(configs@.take(i + 1), event_key, pv) == spec_build_hooks(
                    configs@.take(i as int),
                    event_key,
                    pv,
                ).push(hv));
                assert(hooks_view(out@) =~= spec_build_hooks(configs@.take(i + 1), event_key, pv));
            },
            None => {},
        }
        i = i + 1;
    }
    assert(configs@.take(configs.len() as int) =~= configs@);
    out
}

/// Compiles the configured hooks of one event, without a once-key prefix.
pub fn build_hooks(configs: &Vec<CommandHookConfig>, event_key: HookEventKey) -> (r: Vec<Hook>)
    ensures
        hooks_view(r@) == spec_build_hooks(configs@, event_key, None),
        hooks_wf(r@),
{
    build_hooks_with_prefix(configs, event_key, None)
}

/// The hooks of every event, indexed by the event kind's position.
pub open spec fn tables_built_from(
    t: Seq<Vec<Hook>>,
    c: CommandHooksConfig,
    prefix: Option<Seq<char>>,
) -> bool {
    &&& t.len() == EVENT_KEY_COUNT
    &&& forall|i: int|
        0 <= i < EVENT_KEY_COUNT ==> hooks_view(#[trigger] t[i]@) == spec_build_hooks(
            spec_configs_for(c, spec_key_at(i)),
            spec_key_at(i),
            prefix,
        )
}

/// Every table has one list per event kind, and every matcher compiles.
pub open spec fn table_wf(t: Seq<Vec<Hook>>) -> bool {
    &&& t.len() == EVENT_KEY_COUNT
    &&& forall|i: int| 0 <= i < t.len() ==> hooks_wf(#[trigger] t[i]@)
}

fn build_table(c: &CommandHooksConfig, prefix: Option<&str>) -> (r: Vec<Vec<Hook>>)
    ensures
        tables_built_from(
            r@,
            *c,
            match prefix {
                Some(p) => Some(p@),
                None => None,
            },
        ),
        table_wf(r@),
{
    let ghost pv = match prefix {
        Some(p) => Some(p@),
        None => None,
    };
    let mut t: Vec<Vec<Hook>> = Vec::new();
    let mut i: usize = 0;
    while i < EVENT_KEY_COUNT
        invariant
            i <= EVENT_KEY_COUNT,
            t@.len() == i,
            forall|j: int|
                0 <= j < i ==> hooks_view(#[trigger] t@[j]@) == spec_build_hooks(
                    spec_configs_for(*c, spec_key_at(j)),
                    spec_key_at(j),
                    pv,
                ),
            forall|j: int| 0 <= j < i ==> hooks_wf(#[trigger] t@[j]@),
            pv == match prefix {
                Some(p) => Some(p@),
                None => None,
            },
        decreases EVENT_KEY_COUNT - i,
    {
        let key = HookEventKey::at(i);
        let hooks = build_hooks_with_prefix(c.configs_for(key), key, prefix);
        let ghost prev = t@;
        let ghost hv = hooks@;
        t.push(hooks);
        assert(t@[i as int]@ == hv);
        proof {
            assert forall|j: int| 0 <= j < i + 1 implies hooks_view(#[trigger] t@[j]@)
                == spec_build_hooks(spec_configs_for(*c, spec_key_at(j)), spec_key_at(j), pv)
                && hooks_wf(t@[j]@) by {
                if j < i {
                    assert(t@[j] == prev[j]);
                }
            }
        }
        i = i + 1;
    }
    t
}

/// What dispatching an event decided for one hook: report its configuration error, or run it.
#[derive(Debug)]
pub enum PlannedHook {
    Failed { hook_name: String, error: String },
    Run { hook_name: String, handler: HookHandler, timeout: Option<u64> },
}

/// The view of a planned hook: a failure with its name and error, or the position, among the
/// hooks considered, of the hook that runs.
pub enum PlanItem {
    Failed(Seq<char>, Seq<char>),
    Run(int),
}

/// The state of a dispatch after some of the hooks: what was decided, the identities seen,
/// and the identities of the once-only hooks that have run in this session.
pub struct PlanState {
    pub items: Seq<PlanItem>,
    pub seen: Seq<Seq<char>>,
    pub ran_once: Seq<Seq<char>>,
}

/// The decision for the `j`-th hook `h`. A hook with a configuration error is reported. On
/// events with matchers, a hook whose matcher the event does not meet is skipped. A hook whose
/// identity was already seen in this dispatch is skipped, and its identity is then seen. A
/// once-only hook that already ran in this session is skipped; otherwise it runs and is
/// recorded.
pub open spec fn plan_step(
    st: PlanState,
    h: HookModel,
    j: int,
    use_matchers: bool,
    e: HookEvent,
) -> PlanState {
    match h.config_error {
        Some(err) => PlanState { items: st.items.push(PlanItem::Failed(h.name, err)), ..st },
        None => if use_matchers && !spec_matches(h.matcher, e) {
            st
        } else if st.seen.contains(h.identity) {
            st
        } else {
            let seen = st.seen.push(h.identity);
            if h.once && st.ran_once.contains(h.identity) {
                PlanState { seen, ..st }
            } else {
                PlanState {
                    items: st.items.push(PlanItem::Run(j)),
                    seen,
                    ran_once: if h.once {
                        st.ran_once.push(h.identity)
                    } else {
                        st.ran_once
                    },
                }
            }
        },
    }
}

/// The dispatch decisions over the first `n` hooks.
pub open spec fn plan_fold(
    hooks: Seq<HookModel>,
    n: nat,
    use_matchers: bool,
    e: HookEvent,
    ran_once: Seq<Seq<char>>,
) -> PlanState
    decreases n,
{
    if n == 0 {
        PlanState { items: seq![], seen: seq![], ran_once }
    } else {
        plan_step(
            plan_fold(hooks, (n - 1) as nat, use_matchers, e, ran_once),
            hooks[n - 1],
            n - 1,
            use_matchers,
            e,
        )
    }
}

/// The dispatch decisions over all of `hooks`.
pub open spec fn spec_plan(
    hooks: Seq<HookModel>,
    use_matchers: bool,
    e: HookEvent,
    ran_once: Seq<Seq<char>>,
) -> PlanState {
    plan_fold(hooks, hooks.len(), use_matchers, e, ran_once)
}

/// `p` is the planned hook that `item` describes, among `hooks`.
pub open spec fn planned_as(p: PlannedHook, item: PlanItem, hooks: Seq<HookModel>) -> bool {
    match item {
        PlanItem::Failed(n, e) => match p {
            PlannedHook::Failed { hook_name, error } => hook_name@ == n && error@ == e,
            _ => false,
        },
        PlanItem::Run(j) => match p {
            PlannedHook::Run { hook_name, handler, timeout } => {
                &&& 0 <= j < hooks.len()
                &&& hook_name@ == hooks[j].name
                &&& handler_view(handler) == hooks[j].handler
                &&& timeout == hooks[j].timeout
            },
            _ => false,
        },
    }
}

/// What running a planned hook asks of the caller.
#[derive(Debug)]
pub enum HookWork {
    /// Nothing is run: this is the hook's result.
    Done(HookResult),
    /// Run the command and take its result.
    Command { argv: Vec<String>, timeout: Option<u64> },
    /// The hook answers success at once; the command runs in the background and its result,
    /// passed through `background_result`, is reported on its own.
    Background { argv: Vec<String>, timeout: Option<u64> },
    /// Hand the prompt to the prompt executor and take its result.
    Prompt { prompt: String, model: Option<String>, timeout: Option<u64> },
    /// Hand the prompt to the agent executor and take its result.
    Agent { prompt: String, model: Option<String>, timeout: Option<u64> },
}

/// The work of a hook that runs, given whether background results are collected and whether
/// prompt and agent hooks have an executor.
pub open spec fn spec_work(
    handler: HandlerModel,
    timeout: Option<u64>,
    has_async_results: bool,
    has_executor: bool,
    w: HookWork,
) -> bool {
    match handler {
        HandlerModel::Command { argv, async_ } => if async_ {
            if has_async_results {
                w matches HookWork::Background { argv: a, timeout: t } && strings_view(a@) == argv
                    && t == timeout
            } else {
                w matches HookWork::Done(r) && is_plain_success(r)
            }
        } else {
            w matches HookWork::Command { argv: a, timeout: t } && strings_view(a@) == argv && t
                == timeout
        },
        HandlerModel::Prompt { prompt, model } => if has_executor {
            w matches HookWork::Prompt { prompt: p, model: m, timeout: t } && p@ == prompt
                && opt_view(m) == model && t == timeout
        } else {
            w matches HookWork::Done(r) && is_error_result(r, "prompt hooks are not configured"@)
        },
        HandlerModel::Agent { prompt, model } => if has_executor {
            w matches HookWork::Agent { prompt: p, model: m, timeout: t } && p@ == prompt
                && opt_view(m) == model && t == timeout
        } else {
            w matches HookWork::Done(r) && is_error_result(r, "agent hooks are not configured"@)
        },
    }
}

/// The work of a hook that runs.
pub fn work_for(
    handler: HookHandler,
    timeout: Option<u64>,
    has_async_results: bool,
    has_executor: bool,
) -> (w: HookWork)
    ensures
        spec_work(handler_view(handler), timeout, has_async_results, has_executor, w),
{
    match handler {
        HookHandler::Command { argv, async_ } => {
            if async_ {
                if has_async_results {
                    HookWork::Background { argv, timeout }
                } else {
                    HookWork::Done(HookResult::success())
                }
            } else {
                HookWork::Command { argv, timeout }
            }
        },
        HookHandler::Prompt { prompt, model } => {
            if has_executor {
                HookWork::Prompt { prompt, model, timeout }
            } else {
                HookWork::Done(HookResult::with_error(owned("prompt hooks are not configured")))
            }
        },
        HookHandler::Agent { prompt, model } => {
            if has_executor {
                HookWork::Agent { prompt, model, timeout }
            } else {
                HookWork::Done(HookResult::with_error(owned("agent hooks are not configured")))
            }
        },
    }
}

/// The result of a command run in the background, which can no longer block or decide: its
/// control is `Continue` and it carries no permission decision; the rest is kept.
pub fn background_result(r: HookResult) -> (out: HookResult)
    ensures
        out.control is Continue,
        out.permission_decision is None,
        out.permission_decision_reason is None,
        out.updated_input == r.updated_input,
        out.additional_context@ == r.additional_context@,
        out.error == r.error,
{
    HookResult {
        control: HookResultControl::Continue,
        permission_decision: None,
        permission_decision_reason: None,
        updated_input: r.updated_input,
        additional_context: r.additional_context,
        error: r.error,
    }
}

/// The response of the `i`-th planned hook, given what its run gave back (none when the run
/// failed to finish).
pub open spec fn response_for(p: PlannedHook, result: Option<HookResult>, out: HookResponse) -> bool {
    match p {
        PlannedHook::Failed { hook_name, error } => out.hook_name@ == hook_name@ && is_error_result(
            out.result,
            error@,
        ),
        PlannedHook::Run { hook_name, .. } => out.hook_name@ == hook_name@ && match result {
            Some(r) => out.result == r,
            None => is_error_result(out.result, "hook task failed"@),
        },
    }
}

/// The responses of a dispatch, in the order of the planned hooks: a hook with a configuration
/// error reports it, a hook that ran reports its result, and one whose run did not finish
/// reports `hook task failed`. `results[i]` is what the `i`-th planned hook's run gave back.
pub fn finish_dispatch(planned: &Vec<PlannedHook>, results: Vec<Option<HookResult>>) -> (r: Vec<
    HookResponse,
>)
    requires
        results@.len() == planned@.len(),
    ensures
        r@.len() == planned@.len(),
        forall|i: int|
            0 <= i < r@.len() ==> response_for(planned@[i], results@[i], #[trigger] r@[i]),
{
    let mut results = results;
    let ghost given = results@;
    let mut out: Vec<HookResponse> = Vec::new();
    let mut i: usize = 0;
    while i < planned.len()
        invariant
            i <= planned@.len(),
            results@.len() == planned@.len(),
            given.len() == planned@.len(),
            forall|j: int| i <= j < results@.len() ==> results@[j] == given[j],
            out@.len() == i,
            forall|j: int| 0 <= j < i ==> response_for(planned@[j], given[j], #[trigger] out@[j]),
        decreases planned@.len() - i,
    {
        let mut slot: Option<HookResult> = None;
        std::mem::swap(&mut slot, &mut results[i]);
        let response = match &planned[i] {
            PlannedHook::Failed { hook_name, error } => HookResponse {
                hook_name: hook_name.clone(),
                result: HookResult::with_error(error.clone()),
            },
            PlannedHook::Run { hook_name, .. } => HookResponse {
                hook_name: hook_name.clone(),
                result: match slot {
                    Some(r) => r,
                    None => HookResult::with_error(owned("hook task failed")),
                },
            },
        };
        out.push(response);
        i = i + 1;
    }
    out
}

/// The hook registry of a session: the configured hooks of every event, the hooks installed
/// under scopes (in the order of their scope names), and the once-only hooks that have run.
pub struct Hooks {
    pub table: Vec<Vec<Hook>>,
    pub ran_once: Vec<String>,
    pub scoped: Vec<(String, Vec<Vec<Hook>>)>,
}

/// The scope names of scoped hooks.
pub open spec fn scope_names(s: Seq<(String, Vec<Vec<Hook>>)>) -> Seq<Seq<char>> {
    s.map_values(|e: (String, Vec<Vec<Hook>>)| e.0@)
}

/// Scopes are held in strictly increasing order of their names.
pub open spec fn scopes_sorted(s: Seq<(String, Vec<Vec<Hook>>)>) -> bool {
    forall|i: int, j: int| 0 <= i < j < s.len() ==> seq_lt(#[trigger] s[i].0@, #[trigger] s[j].0@)
}

/// The hooks of scopes, in scope order, for the event kind at position `k`.
pub open spec fn scoped_hooks_at(s: Seq<(String, Vec<Vec<Hook>>)>, k: int) -> Seq<HookModel>
    decreases s.len(),
{
    if s.len() == 0 {
        seq![]
    } else {
        scoped_hooks_at(s.drop_last(), k) + hooks_view(s.last().1@[k]@)
    }
}

impl Hooks {
    /// The registry is well formed: one list per event kind everywhere, every matcher compiles,
    /// and scopes are in strict order of their names.
    pub open spec fn wf(&self) -> bool {
        &&& table_wf(self.table@)
        &&& forall|i: int| 0 <= i < self.scoped@.len() ==> table_wf(#[trigger] self.scoped@[i].1@)
        &&& scopes_sorted(self.scoped@)
    }

    /// The configured hooks of the event kind at position `k`.
    pub open spec fn hooks_at(&self, k: int) -> Seq<HookModel> {
        hooks_view(self.table@[k]@)
    }

    /// The hooks considered for the event kind at position `k`: configured ones, then scoped
    /// ones in scope order.
    pub open spec fn considered_at(&self, k: int) -> Seq<HookModel> {
        self.hooks_at(k) + scoped_hooks_at(self.scoped@, k)
    }

    /// The identities of the once-only hooks that have run.
    pub open spec fn ran_once_view(&self) -> Seq<Seq<char>> {
        strings_view(self.ran_once@)
    }

    /// A registry with the hooks of a configuration and no scopes.
    pub fn new(config: HooksConfig) -> (r: Hooks)
        ensures
            r.wf(),
            tables_built_from(r.table@, config.command_hooks, None),
            r.ran_once_view() == Seq::<Seq<char>>::empty(),
            r.scoped@.len() == 0,
    {
        let table = build_table(&config.command_hooks, None);
        let r = Hooks { table, ran_once: Vec::new(), scoped: Vec::new() };
        assert(r.ran_once_view() =~= Seq::<Seq<char>>::empty());
        r
    }

    /// Installs the hooks of a configuration under a scope, replacing those the scope had.
    pub fn insert_scoped_command_hooks(&mut self, scope_id: String, command_hooks: CommandHooksConfig)
        requires
            old(self).wf(),
        ensures
            final(self).wf(),
            final(self).table@ == old(self).table@,
            final(self).ran_once@ == old(self).ran_once@,
            scopes_view(final(self).scoped@) == spec_insert_scope(
                scopes_view(old(self).scoped@),
                scope_id@,
                spec_built_table(command_hooks, Some(scope_id@)),
            ),
    {
        let table = build_table(&command_hooks, Some(scope_id.as_str()));
        let ghost built = table@;
        let ghost sid = scope_id@;
        let ghost tv = spec_built_table(command_hooks, Some(sid));
        proof {
            lemma_table_view_built(built, command_hooks, Some(sid));
        }
        let (pos, found) = self.scope_position(scope_id.as_str());
        let ghost s0 = self.scoped@;
        let ghost v0 = scopes_view(s0);
        if found {
            let _ = self.scoped.remove(pos);
            self.scoped.insert(pos, (scope_id, table));
            proof {
                assert(self.scoped@ =~= s0.update(pos as int, self.scoped@[pos as int]));
                assert forall|i: int, j: int|
                    0 <= i < j < self.scoped@.len() implies seq_lt(
                    #[trigger] self.scoped@[i].0@,
                    #[trigger] self.scoped@[j].0@,
                ) by {
                    assert(self.scoped@[i].0@ == s0[i].0@);
                    assert(self.scoped@[j].0@ == s0[j].0@);
                }
                assert(scopes_view(self.scoped@) =~= v0.update(pos as int, (sid, tv)));
                assert forall|i: int| 0 <= i < pos implies seq_lt(#[trigger] v0[i].0, sid) by {
                    assert(seq_lt(s0[i].0@, s0[pos as int].0@));
                }
                lemma_insert_scope_found(v0, pos as int, sid, tv);
            }
        } else {
            self.scoped.insert(pos, (scope_id, table));
            proof {
                assert(self.scoped@ =~= s0.insert(pos as int, self.scoped@[pos as int]));
                assert forall|i: int, j: int|
                    0 <= i < j < self.scoped@.len() implies seq_lt(
                    #[trigger] self.scoped@[i].0@,
                    #[trigger] self.scoped@[j].0@,
                ) by {
                    if j < pos {
                        assert(self.scoped@[i] == s0[i] && self.scoped@[j] == s0[j]);
                    } else if j == pos {
                        assert(self.scoped@[i] == s0[i]);
                    } else if i == pos {
                        assert(self.scoped@[j] == s0[j - 1]);
                    } else if i < pos {
                        assert(self.scoped@[i] == s0[i] && self.scoped@[j] == s0[j - 1]);
                    } else {
                        assert(self.scoped@[i] == s0[i - 1] && self.scoped@[j] == s0[j - 1]);
                    }
                }
                assert(scopes_view(self.scoped@) =~= v0.insert(pos as int, (sid, tv)));
                assert forall|i: int| 0 <= i < pos implies seq_lt(#[trigger] v0[i].0, sid) by {
                    assert(v0[i].0 == s0[i].0@);
                }
                assert forall|i: int| pos <= i < v0.len() implies seq_lt(sid, #[trigger] v0[i].0) by {
                    assert(v0[i].0 == s0[i].0@);
                }
                lemma_insert_scope_absent(v0, pos as int, sid, tv);
            }
        }
    }

    /// Removes the hooks installed under a scope; other scopes keep theirs.
    pub fn remove_scoped_hooks(&mut self, scope_id: &str)
        requires
            old(self).wf(),
        ensures
            final(self).wf(),
            final(self).table@ == old(self).table@,
            final(self).ran_once@ == old(self).ran_once@,
            scopes_view(final(self).scoped@) == spec_remove_scope(
                scopes_view(old(self).scoped@),
                scope_id@,
            ),
    {
        let (pos, found) = self.scope_position(scope_id);
        let ghost s0 = self.scoped@;
        let ghost v0 = scopes_view(s0);
        proof {
            lemma_sorted_names_unique(s0);
        }
        if found {
            let _ = self.scoped.remove(pos);
            proof {
                assert forall|i: int, j: int|
                    0 <= i < j < self.scoped@.len() implies seq_lt(
                    #[trigger] self.scoped@[i].0@,
                    #[trigger] self.scoped@[j].0@,
                ) by {
                    let i0 = if i < pos { i } else { i + 1 };
                    let j0 = if j < pos { j } else { j + 1 };
                    assert(self.scoped@[i] == s0[i0]);
                    assert(self.scoped@[j] == s0[j0]);
                }
                assert(scopes_view(self.scoped@) =~= v0.remove(pos as int));
                assert forall|i: int| 0 <= i < v0.len() && i != pos implies (#[trigger] v0[i]).0
                    != scope_id@ by {
                    assert(v0[i].0 == s0[i].0@);
                }
                lemma_remove_scope_at(v0, pos as int, scope_id@);
            }
        } else {
            proof {
                assert forall|i: int| 0 <= i < v0.len() implies (#[trigger] v0[i]).0 != scope_id@ by {
                    assert(v0[i].0 == s0[i].0@);
                    if i < pos {
                        lemma_seq_lt_asym(s0[i].0@, scope_id@);
                    } else {
                        lemma_seq_lt_asym(scope_id@, s0[i].0@);
                    }
                }
                lemma_remove_scope_absent(v0, scope_id@);
            }
        }
    }

    /// Where a scope name stands among the scopes, and whether it is there.
    fn scope_position(&self, scope_id: &str) -> (r: (usize, bool))
        requires
            scopes_sorted(self.scoped@),
        ensures
            r.0 <= self.scoped@.len(),
            r.1 ==> r.0 < self.scoped@.len() && self.scoped@[r.0 as int].0@ == scope_id@,
            r.1 == scope_names(self.scoped@).contains(scope_id@),
            !r.1 ==> forall|i: int| 0 <= i < r.0 ==> seq_lt(#[trigger] self.scoped@[i].0@, scope_id@),
            !r.1 ==> forall|i: int|
                r.0 <= i < self.scoped@.len() ==> seq_lt(scope_id@, #[trigger] self.scoped@[i].0@),
    {
        let target = chars_of(scope_id);
        let mut i: usize = 0;
        while i < self.scoped.len()
            invariant
                i <= self.scoped@.len(),
                target@ == scope_id@,
                scopes_sorted(self.scoped@),
                forall|k: int| 0 <= k < i ==> seq_lt(#[trigger] self.scoped@[k].0@, scope_id@),
            decreases self.scoped@.len() - i,
        {
            let name = chars_of(self.scoped[i].0.as_str());
            if chars_eq(name.as_slice(), target.as_slice()) {
                proof {
                    assert(scope_names(self.scoped@)[i as int] == scope_id@);
                }
                return (i, true);
            }
            if chars_lt(target.as_slice(), name.as_slice()) {
                proof {
                    assert forall|k: int| i <= k < self.scoped@.len() implies seq_lt(
                        scope_id@,
                        #[trigger] self.scoped@[k].0@,
                    ) by {
                        if k > i {
                            lemma_seq_lt_trans(scope_id@, self.scoped@[i as int].0@, self.scoped@[k].0@);
                        }
                    }
                    lemma_not_contains(self.scoped@, scope_id@, i as int);
                }
                return (i, false);
            }
            proof {
                lemma_seq_lt_total(scope_id@, self.scoped@[i as int].0@);
            }
            i = i + 1;
        }
        proof {
            lemma_not_contains(self.scoped@, scope_id@, i as int);
        }
        (i, false)
    }

    /// The hooks considered for an event: configured, then scoped in scope order.
    fn considered(&self, k: usize) -> (r: Vec<&Hook>)
        requires
            self.wf(),
            k < EVENT_KEY_COUNT,
        ensures
            r@.map_values(|h: &Hook| hook_view(*h)) == self.considered_at(k as int),
            forall|i: int| 0 <= i < r@.len() ==> matcher_wf(#[trigger] matcher_view(r@[i].matcher)),
    {
        let mut out: Vec<&Hook> = Vec::new();
        let list = &self.table[k];
        let mut i: usize = 0;
        while i < list.len()
            invariant
                i <= list@.len(),
                list@ == self.table@[k as int]@,
                self.wf(),
                k < EVENT_KEY_COUNT,
                out@.map_values(|h: &Hook| hook_view(*h)) == hooks_view(list@.take(i as int)),
                forall|j: int| 0 <= j < out@.len() ==> matcher_wf(#[trigger] matcher_view(out@[j].matcher)),
            decreases list@.len() - i,
        {
            let ghost prev = out@;
            assert(hooks_wf(self.table@[k as int]@));
            assert(matcher_wf(matcher_view(list@[i as int].matcher)));
            out.push(&list[i]);
            assert(out@.map_values(|h: &Hook| hook_view(*h)) =~= prev.map_values(
                |h: &Hook| hook_view(*h),
            ).push(hook_view(list@[i as int])));
            assert forall|j: int| 0 <= j < out@.len() implies matcher_wf(
                #[trigger] matcher_view(out@[j].matcher),
            ) by {
                if j < prev.len() {
                    assert(out@[j] == prev[j]);
                    assert(matcher_wf(matcher_view(prev[j].matcher)));
                } else {
                    assert(out@[j].matcher == list@[i as int].matcher);
                }
            }
            assert(hooks_view(list@.take(i + 1)) =~= hooks_view(list@.take(i as int)).push(
                hook_view(list@[i as int]),
            ));
            assert(out@.map_values(|h: &Hook| hook_view(*h)) =~= hooks_view(list@.take(i + 1)));
            i = i + 1;
        }
        assert(list@.take(list@.len() as int) =~= list@);
        let mut s: usize = 0;
        while s < self.scoped.len()
            invariant
                s <= self.scoped@.len(),
                self.wf(),
                k < EVENT_KEY_COUNT,
                out@.map_values(|h: &Hook| hook_view(*h)) == self.hooks_at(k as int)
                    + scoped_hooks_at(self.scoped@.take(s as int), k as int),
                forall|j: int| 0 <= j < out@.len() ==> matcher_wf(#[trigger] matcher_view(out@[j].matcher)),
            decreases self.scoped@.len() - s,
        {
            let table = &self.scoped[s].1;
            assert(table_wf(self.scoped@[s as int].1@));
            let list = &table[k];
            let ghost before = out@.map_values(|h: &Hook| hook_view(*h));
            let mut i: usize = 0;
            while i < list.len()
                invariant
                    i <= list@.len(),
                    table_wf(table@),
                    k < EVENT_KEY_COUNT,
                    list@ == table@[k as int]@,
                    out@.map_values(|h: &Hook| hook_view(*h)) == before + hooks_view(
                        list@.take(i as int),
                    ),
                    forall|j: int| 0 <= j < out@.len() ==> matcher_wf(#[trigger] matcher_view(out@[j].matcher)),
                decreases list@.len() - i,
            {
                assert(hooks_wf(table@[k as int]@));
                let ghost prev = out@;
                assert(matcher_wf(matcher_view(list@[i as int].matcher)));
                out.push(&list[i]);
                assert(out@.map_values(|h: &Hook| hook_view(*h)) =~= prev.map_values(
                    |h: &Hook| hook_view(*h),
                ).push(hook_view(list@[i as int])));
                assert forall|j: int| 0 <= j < out@.len() implies matcher_wf(
                    #[trigger] matcher_view(out@[j].matcher),
                ) by {
                    if j < prev.len() {
                        assert(out@[j] == prev[j]);
                        assert(matcher_wf(matcher_view(prev[j].matcher)));
                    } else {
                        assert(out@[j].matcher == list@[i as int].matcher);
                    }
                }
                assert(hooks_view(list@.take(i + 1)) =~= hooks_view(list@.take(i as int)).push(
                    hook_view(list@[i as int]),
                ));
                assert(out@.map_values(|h: &Hook| hook_view(*h)) =~= before + hooks_view(
                    list@.take(i + 1),
                ));
                i = i + 1;
            }
            assert(list@.take(list@.len() as int) =~= list@);
            assert(self.scoped@.take(s + 1).drop_last() =~= self.scoped@.take(s as int));
            assert(out@.map_values(|h: &Hook| hook_view(*h)) =~= self.hooks_at(k as int)
                + scoped_hooks_at(self.scoped@.take(s + 1), k as int));
            s = s + 1;
        }
        assert(self.scoped@.take(self.scoped@.len() as int) =~= self.scoped@);
        out
    }

    fn ran_once_contains(&self, id: &str) -> (r: bool)
        ensures
            r == self.ran_once_view().contains(id@),
    {
        let mut i: usize = 0;
        while i < self.ran_once.len()
            invariant
                i <= self.ran_once@.len(),
                forall|j: int| 0 <= j < i ==> self.ran_once@[j]@ != id@,
            decreases self.ran_once@.len() - i,
        {
            if str_eq(self.ran_once[i].as_str(), id) {
                assert(self.ran_once_view()[i as int] == id@);
                return true;
            }
            i = i + 1;
        }
        proof {
            if self.ran_once_view().contains(id@) {
                let k = choose|k: int| 0 <= k < self.ran_once_view().len() && self.ran_once_view()[k] == id@;
                assert(self.ran_once@[k]@ == id@);
            }
        }
        false
    }

    /// Decides which hooks run for an event, and records the once-only hooks that now run.
    pub fn plan_dispatch(&mut self, event: &HookEvent) -> (r: Vec<PlannedHook>)
        requires
            old(self).wf(),
        ensures
            final(self).wf(),
            final(self).table@ == old(self).table@,
            final(self).scoped@ == old(self).scoped@,
            ({
                let k = spec_key_index(crate::hooks::types::spec_event_key(*event));
                let hooks = old(self).considered_at(k);
                let st = spec_plan(
                    hooks,
                    spec_supports_matchers(crate::hooks::types::spec_event_key(*event)),
                    *event,
                    old(self).ran_once_view(),
                );
                &&& r@.len() == st.items.len()
                &&& forall|i: int| 0 <= i < r@.len() ==> planned_as(#[trigger] r@[i], st.items[i], hooks)
                &&& final(self).ran_once_view() == st.ran_once
            }),
    {
        let key = event.key();
        let k = key.index();
        let use_matchers = key.supports_matchers();
        let ghost ran0 = self.ran_once_view();
        let ghost hooks_model = self.considered_at(k as int);
        let mut new_once: Vec<String> = Vec::new();
        let mut out: Vec<PlannedHook> = Vec::new();
        {
            let hooks = self.considered(k);
            let mut seen: Vec<String> = Vec::new();
            let mut i: usize = 0;
            while i < hooks.len()
                invariant
                    i <= hooks@.len(),
                    hooks@.map_values(|h: &Hook| hook_view(*h)) == hooks_model,
                    forall|j: int| 0 <= j < hooks@.len() ==> matcher_wf(#[trigger] matcher_view(hooks@[j].matcher)),
                    self.ran_once_view() == ran0,
                    ({
                        let st = plan_fold(hooks_model, i as nat, use_matchers, *event, ran0);
                        &&& out@.len() == st.items.len()
                        &&& forall|x: int| 0 <= x < out@.len() ==> planned_as(#[trigger] out@[x], st.items[x], hooks_model)
                        &&& strings_view(seen@) == st.seen
                        &&& ran0 + strings_view(new_once@) == st.ran_once
                    }),
                decreases hooks@.len() - i,
            {
                let h: &Hook = hooks[i];
                let ghost st = plan_fold(hooks_model, i as nat, use_matchers, *event, ran0);
                assert(hook_view(*h) == hooks_model[i as int]);
                assert(matcher_wf(matcher_view(hooks@[i as int].matcher)));
                let ghost hm = hooks_model[i as int];
                if let Some(err) = &h.config_error {
                    out.push(PlannedHook::Failed { hook_name: h.name.clone(), error: err.clone() });
                    proof {
                        assert forall|x: int| 0 <= x < out@.len() implies planned_as(
                            #[trigger] out@[x],
                            plan_fold(hooks_model, (i + 1) as nat, use_matchers, *event, ran0).items[x],
                            hooks_model,
                        ) by {
                            if x < out@.len() - 1 {
                                assert(out@[x] == old_out_at(out@, x));
                            }
                        }
                    }
                } else if use_matchers && !h.matcher.matches(event) {
                } else if contains_string(&seen, h.handler_identity.as_str()) {
                } else {
                    seen.push(h.handler_identity.clone());
                    proof {
                        assert(strings_view(seen@) =~= st.seen.push(hm.identity));
                    }
                    let already = h.once && (self.ran_once_contains(h.handler_identity.as_str())
                        || contains_string(&new_once, h.handler_identity.as_str()));
                    proof {
                        if h.once {
                            lemma_contains_concat(ran0, strings_view(new_once@), hm.identity);
                        }
                    }
                    if !already {
                        out.push(
                            PlannedHook::Run {
                                hook_name: h.name.clone(),
                                handler: h.handler.duplicate(),
                                timeout: h.timeout,
                            },
                        );
                        if h.once {
                            new_once.push(h.handler_identity.clone());
                            proof {
                                assert(ran0 + strings_view(new_once@) =~= (ran0 + strings_view(
                                    new_once@.drop_last(),
                                )).push(hm.identity));
                                assert(new_once@.drop_last() =~= old_seq(new_once@));
                            }
                        }
                        proof {
                            assert forall|x: int| 0 <= x < out@.len() implies planned_as(
                                #[trigger] out@[x],
                                plan_fold(hooks_model, (i + 1) as nat, use_matchers, *event, ran0).items[x],
                                hooks_model,
                            ) by {
                                if x < out@.len() - 1 {
                                    assert(out@[x] == old_out_at(out@, x));
                                }
                            }
                        }
                    }
                }
                i = i + 1;
            }
            assert(hooks_model.len() == hooks@.len());
        }
        let mut j: usize = 0;
        let ghost before = self.ran_once@;
        while j < new_once.len()
            invariant
                j <= new_once@.len(),
                self.ran_once@ == before + new_once@.take(j as int),
                self.table@ == old(self).table@,
                self.scoped@ == old(self).scoped@,
            decreases new_once@.len() - j,
        {
            self.ran_once.push(new_once[j].clone());
            assert(before + new_once@.take(j + 1) =~= (before + new_once@.take(j as int)).push(
                new_once@[j as int],
            ));
            j = j + 1;
        }
        proof {
            assert(new_once@.take(new_once@.len() as int) =~= new_once@);
            assert(strings_view(before + new_once@) =~= strings_view(before) + strings_view(new_once@));
        }
        out
    }
}

spec fn old_out_at(s: Seq<PlannedHook>, x: int) -> PlannedHook {
    s[x]
}

spec fn old_seq(s: Seq<String>) -> Seq<String> {
    s.drop_last()
}

proof fn lemma_contains_concat(a: Seq<Seq<char>>, b: Seq<Seq<char>>, x: Seq<char>)
    ensures
        (a + b).contains(x) == (a.contains(x) || b.contains(x)),
{
    if (a + b).contains(x) {
        let k = choose|k: int| 0 <= k < (a + b).len() && (a + b)[k] == x;
        if k < a.len() {
            assert(a[k] == x);
        } else {
            assert(b[k - a.len()] == x);
        }
    }
    if a.contains(x) {
        let k = choose|k: int| 0 <= k < a.len() && a[k] == x;
        assert((a + b)[k] == x);
    }
    if b.contains(x) {
        let k = choose|k: int| 0 <= k < b.len() && b[k] == x;
        assert((a + b)[k + a.len()] == x);
    }
}

/// Whether a list of strings holds `s`.
fn contains_string(v: &Vec<String>, s: &str) -> (r: bool)
    ensures
        r == strings_view(v@).contains(s@),
{
    let mut i: usize = 0;
    while i < v.len()
        invariant
            i <= v@.len(),
            forall|j: int| 0 <= j < i ==> v@[j]@ != s@,
        decreases v@.len() - i,
    {
        if str_eq(v[i].as_str(), s) {
            assert(strings_view(v@)[i as int] == s@);
            return true;
        }
        i = i + 1;
    }
    proof {
        if strings_view(v@).contains(s@) {
            let k = choose|k: int| 0 <= k < strings_view(v@).len() && strings_view(v@)[k] == s@;
            assert(v@[k]@ == s@);
        }
    }
    false
}

proof fn lemma_not_contains(s: Seq<(String, Vec<Vec<Hook>>)>, n: Seq<char>, p: int)
    requires
        0 <= p <= s.len(),
        forall|i: int| 0 <= i < p ==> seq_lt(#[trigger] s[i].0@, n),
        forall|i: int| p <= i < s.len() ==> seq_lt(n, #[trigger] s[i].0@),
    ensures
        !scope_names(s).contains(n),
{
    if scope_names(s).contains(n) {
        let k = choose|k: int| 0 <= k < scope_names(s).len() && scope_names(s)[k] == n;
        assert(s[k].0@ == n);
        lemma_seq_lt_irrefl(n);
    }
}

proof fn lemma_sorted_names_unique(s: Seq<(String, Vec<Vec<Hook>>)>)
    requires
        scopes_sorted(s),
    ensures
        forall|i: int, j: int|
            0 <= i < s.len() && 0 <= j < s.len() && i != j ==> s[i].0@ != s[j].0@,
{
    assert forall|i: int, j: int|
        0 <= i < s.len() && 0 <= j < s.len() && i != j implies s[i].0@ != s[j].0@ by {
        if i < j {
            assert(seq_lt(s[i].0@, s[j].0@));
        } else {
            assert(seq_lt(s[j].0@, s[i].0@));
        }
        if s[i].0@ == s[j].0@ {
            lemma_seq_lt_irrefl(s[i].0@);
        }
    }
}

/// What holds of the decisions over the first `n` hooks: the once-only record only grows, every
/// hook that runs had its identity seen, a once-only hook that runs was not in the record
/// before and is in it after, and no two hooks that run share an identity.
proof fn lemma_plan_fold(
    hooks: Seq<HookModel>,
    n: nat,
    use_matchers: bool,
    e: HookEvent,
    ran_once: Seq<Seq<char>>,
)
    requires
        n <= hooks.len(),
    ensures
        ({
            let st = plan_fold(hooks, n, use_matchers, e, ran_once);
            &&& ran_once.len() <= st.ran_once.len()
            &&& st.ran_once.take(ran_once.len() as int) == ran_once
            &&& forall|x: int|
                0 <= x < st.items.len() ==> (#[trigger] st.items[x] matches PlanItem::Run(j) ==> {
                    &&& 0 <= j < n
                    &&& st.seen.contains(hooks[j].identity)
                    &&& hooks[j].once ==> !ran_once.contains(hooks[j].identity)
                    &&& hooks[j].once ==> st.ran_once.contains(hooks[j].identity)
                })
            &&& forall|x: int, y: int|
                0 <= x < y < st.items.len() ==> (#[trigger] st.items[x] matches PlanItem::Run(a)
                    ==> (#[trigger] st.items[y] matches PlanItem::Run(b) ==> hooks[a].identity
                    != hooks[b].identity))
        }),
    decreases n,
{
    if n > 0 {
        lemma_plan_fold(hooks, (n - 1) as nat, use_matchers, e, ran_once);
        let prev = plan_fold(hooks, (n - 1) as nat, use_matchers, e, ran_once);
        let st = plan_fold(hooks, n, use_matchers, e, ran_once);
        let h = hooks[n - 1];
        assert(st == plan_step(prev, h, n - 1, use_matchers, e));
        if st.ran_once != prev.ran_once {
            assert(st.ran_once =~= prev.ran_once.push(h.identity));
            assert(st.ran_once.take(ran_once.len() as int) =~= prev.ran_once.take(
                ran_once.len() as int,
            ));
        }
        if st.items.len() > prev.items.len() && st.items.last() is Run {
            assert(st.items.last() == PlanItem::Run(n - 1));
            assert(!prev.seen.contains(h.identity));
            if h.once {
                assert(!prev.ran_once.contains(h.identity));
                if ran_once.contains(h.identity) {
                    let k = choose|k: int| 0 <= k < ran_once.len() && ran_once[k] == h.identity;
                    assert(prev.ran_once[k] == prev.ran_once.take(ran_once.len() as int)[k]);
                }
                assert(st.ran_once[st.ran_once.len() - 1] == h.identity);
            }
            assert(st.seen[st.seen.len() - 1] == h.identity);
        }
        assert forall|x: int|
            0 <= x < st.items.len() implies (#[trigger] st.items[x] matches PlanItem::Run(j) ==> {
                &&& 0 <= j < n
                &&& st.seen.contains(hooks[j].identity)
                &&& hooks[j].once ==> !ran_once.contains(hooks[j].identity)
                &&& hooks[j].once ==> st.ran_once.contains(hooks[j].identity)
            }) by {
            if x < prev.items.len() {
                assert(st.items[x] == prev.items[x]);
                if let PlanItem::Run(j) = st.items[x] {
                    let k = choose|k: int| 0 <= k < prev.seen.len() && prev.seen[k] == hooks[j].identity;
                    assert(st.seen[k] == hooks[j].identity);
                    if hooks[j].once {
                        let m = choose|m: int|
                            0 <= m < prev.ran_once.len() && prev.ran_once[m] == hooks[j].identity;
                        assert(st.ran_once[m] == hooks[j].identity);
                    }
                }
            }
        }
        assert forall|x: int, y: int|
            0 <= x < y < st.items.len() implies (#[trigger] st.items[x] matches PlanItem::Run(a)
                ==> (#[trigger] st.items[y] matches PlanItem::Run(b) ==> hooks[a].identity
                != hooks[b].identity)) by {
            assert(st.items[x] == prev.items[x]);
            if y < prev.items.len() {
                assert(st.items[y] == prev.items[y]);
            } else if let PlanItem::Run(a) = st.items[x] {
                if let PlanItem::Run(b) = st.items[y] {
                    assert(prev.items[x] matches PlanItem::Run(_));
                    assert(prev.seen.contains(hooks[a].identity));
                }
            }
        }
    }
}

/// Within one dispatch, no two hooks that run do the same thing: identical hooks run once.
pub proof fn law_dispatch_runs_distinct_handlers(
    hooks: Seq<HookModel>,
    use_matchers: bool,
    e: HookEvent,
    ran_once: Seq<Seq<char>>,
)
    ensures
        ({
            let items = spec_plan(hooks, use_matchers, e, ran_once).items;
            forall|x: int, y: int|
                0 <= x < y < items.len() ==> (#[trigger] items[x] matches PlanItem::Run(a) ==> (
                #[trigger] items[y] matches PlanItem::Run(b) ==> hooks[a].identity
                    != hooks[b].identity))
        }),
{
    lemma_plan_fold(hooks, hooks.len(), use_matchers, e, ran_once);
}

/// A once-only hook runs at most once per session: a dispatch keeps the record of the once-only
/// hooks that ran and only adds to it, and a once-only hook that runs was not in the record
/// before and is in it after.
pub proof fn law_once_hooks_run_once(
    hooks: Seq<HookModel>,
    use_matchers: bool,
    e: HookEvent,
    ran_once: Seq<Seq<char>>,
)
    ensures
        ({
            let st = spec_plan(hooks, use_matchers, e, ran_once);
            &&& st.ran_once.take(ran_once.len() as int) == ran_once
            &&& forall|x: int|
                0 <= x < st.items.len() ==> (#[trigger] st.items[x] matches PlanItem::Run(j) ==> (
                hooks[j].once ==> !ran_once.contains(hooks[j].identity) && st.ran_once.contains(
                    hooks[j].identity,
                )))
        }),
{
    lemma_plan_fold(hooks, hooks.len(), use_matchers, e, ran_once);
}

/// Over two dispatches of a session, the second starting from the record the first left, no
/// once-only hook runs in both.
pub proof fn law_once_hooks_not_rerun(
    first: Seq<HookModel>,
    first_event: HookEvent,
    first_matchers: bool,
    second: Seq<HookModel>,
    second_event: HookEvent,
    second_matchers: bool,
    ran_once: Seq<Seq<char>>,
)
    ensures
        ({
            let st1 = spec_plan(first, first_matchers, first_event, ran_once);
            let st2 = spec_plan(second, second_matchers, second_event, st1.ran_once);
            forall|x: int, y: int|
                0 <= x < st1.items.len() && 0 <= y < st2.items.len() ==> (
                #[trigger] st1.items[x] matches PlanItem::Run(a) ==> (
                #[trigger] st2.items[y] matches PlanItem::Run(b) ==> (first[a].once
                    && second[b].once ==> first[a].identity != second[b].identity)))
        }),
{
    let st1 = spec_plan(first, first_matchers, first_event, ran_once);
    lemma_plan_fold(first, first.len(), first_matchers, first_event, ran_once);
    lemma_plan_fold(second, second.len(), second_matchers, second_event, st1.ran_once);
}

/// The view of the hook lists of every event kind.
pub open spec fn table_view(t: Seq<Vec<Hook>>) -> Seq<Seq<HookModel>> {
    t.map_values(|v: Vec<Hook>| hooks_view(v@))
}

/// The view of the installed scopes: each scope's name and hook lists.
pub open spec fn scopes_view(s: Seq<(String, Vec<Vec<Hook>>)>) -> Seq<(Seq<char>, Seq<Seq<HookModel>>)> {
    s.map_values(|e: (String, Vec<Vec<Hook>>)| (e.0@, table_view(e.1@)))
}

/// The hook lists compiled from a configuration, one per event kind.
pub open spec fn spec_built_table(c: CommandHooksConfig, prefix: Option<Seq<char>>) -> Seq<
    Seq<HookModel>,
> {
    Seq::new(
        EVENT_KEY_COUNT as nat,
        |k: int| spec_build_hooks(spec_configs_for(c, spec_key_at(k)), spec_key_at(k), prefix),
    )
}

/// Installs `t` under the scope `n` in scopes ordered by name: a scope of that name is
/// replaced, otherwise the new scope goes before the first one whose name is greater.
pub open spec fn spec_insert_scope(
    s: Seq<(Seq<char>, Seq<Seq<HookModel>>)>,
    n: Seq<char>,
    t: Seq<Seq<HookModel>>,
) -> Seq<(Seq<char>, Seq<Seq<HookModel>>)>
    decreases s.len(),
{
    if s.len() == 0 {
        seq![(n, t)]
    } else if s[0].0 == n {
        seq![(n, t)] + s.drop_first()
    } else if seq_lt(n, s[0].0) {
        seq![(n, t)] + s
    } else {
        seq![s[0]] + spec_insert_scope(s.drop_first(), n, t)
    }
}

/// The scopes without those named `n`.
pub open spec fn spec_remove_scope(s: Seq<(Seq<char>, Seq<Seq<HookModel>>)>, n: Seq<char>) -> Seq<
    (Seq<char>, Seq<Seq<HookModel>>),
>
    decreases s.len(),
{
    if s.len() == 0 {
        s
    } else if s[0].0 == n {
        spec_remove_scope(s.drop_first(), n)
    } else {
        seq![s[0]] + spec_remove_scope(s.drop_first(), n)
    }
}

proof fn lemma_seq_lt_asym(a: Seq<char>, b: Seq<char>)
    requires
        seq_lt(a, b),
    ensures
        !seq_lt(b, a),
        a != b,
{
    lemma_seq_lt_irrefl(a);
    if seq_lt(b, a) {
        lemma_seq_lt_trans(a, b, a);
    }
}

proof fn lemma_insert_scope_found(
    s: Seq<(Seq<char>, Seq<Seq<HookModel>>)>,
    pos: int,
    n: Seq<char>,
    t: Seq<Seq<HookModel>>,
)
    requires
        0 <= pos < s.len(),
        s[pos].0 == n,
        forall|i: int| 0 <= i < pos ==> seq_lt(#[trigger] s[i].0, n),
    ensures
        spec_insert_scope(s, n, t) == s.update(pos, (n, t)),
    decreases s.len(),
{
    if pos == 0 {
        assert(spec_insert_scope(s, n, t) =~= s.update(pos, (n, t)));
    } else {
        lemma_seq_lt_asym(s[0].0, n);
        let r = s.drop_first();
        assert forall|i: int| 0 <= i < pos - 1 implies seq_lt(#[trigger] r[i].0, n) by {
            assert(r[i] == s[i + 1]);
        }
        lemma_insert_scope_found(r, pos - 1, n, t);
        assert(spec_insert_scope(s, n, t) =~= s.update(pos, (n, t)));
    }
}

proof fn lemma_insert_scope_absent(
    s: Seq<(Seq<char>, Seq<Seq<HookModel>>)>,
    pos: int,
    n: Seq<char>,
    t: Seq<Seq<HookModel>>,
)
    requires
        0 <= pos <= s.len(),
        forall|i: int| 0 <= i < pos ==> seq_lt(#[trigger] s[i].0, n),
        forall|i: int| pos <= i < s.len() ==> seq_lt(n, #[trigger] s[i].0),
    ensures
        spec_insert_scope(s, n, t) == s.insert(pos, (n, t)),
    decreases s.len(),
{
    if s.len() == 0 {
        assert(spec_insert_scope(s, n, t) =~= s.insert(pos, (n, t)));
    } else if pos == 0 {
        lemma_seq_lt_asym(n, s[0].0);
        assert(spec_insert_scope(s, n, t) =~= s.insert(pos, (n, t)));
    } else {
        lemma_seq_lt_asym(s[0].0, n);
        let r = s.drop_first();
        assert forall|i: int| 0 <= i < pos - 1 implies seq_lt(#[trigger] r[i].0, n) by {
            assert(r[i] == s[i + 1]);
        }
        assert forall|i: int| pos - 1 <= i < r.len() implies seq_lt(n, #[trigger] r[i].0) by {
            assert(r[i] == s[i + 1]);
        }
        lemma_insert_scope_absent(r, pos - 1, n, t);
        assert(spec_insert_scope(s, n, t) =~= s.insert(pos, (n, t)));
    }
}

proof fn lemma_remove_scope_absent(s: Seq<(Seq<char>, Seq<Seq<HookModel>>)>, n: Seq<char>)
    requires
        forall|i: int| 0 <= i < s.len() ==> (#[trigger] s[i]).0 != n,
    ensures
        spec_remove_scope(s, n) == s,
    decreases s.len(),
{
    if s.len() > 0 {
        let r = s.drop_first();
        assert forall|i: int| 0 <= i < r.len() implies (#[trigger] r[i]).0 != n by {
            assert(r[i] == s[i + 1]);
        }
        lemma_remove_scope_absent(r, n);
        assert(spec_remove_scope(s, n) =~= s);
    }
}

proof fn lemma_remove_scope_at(s: Seq<(Seq<char>, Seq<Seq<HookModel>>)>, pos: int, n: Seq<char>)
    requires
        0 <= pos < s.len(),
        s[pos].0 == n,
        forall|i: int| 0 <= i < s.len() && i != pos ==> (#[trigger] s[i]).0 != n,
    ensures
        spec_remove_scope(s, n) == s.remove(pos),
    decreases s.len(),
{
    let r = s.drop_first();
    if pos == 0 {
        assert forall|i: int| 0 <= i < r.len() implies (#[trigger] r[i]).0 != n by {
            assert(r[i] == s[i + 1]);
        }
        lemma_remove_scope_absent(r, n);
        assert(spec_remove_scope(s, n) =~= s.remove(pos));
    } else {
        assert forall|i: int| 0 <= i < r.len() && i != pos - 1 implies (#[trigger] r[i]).0 != n by {
            assert(r[i] == s[i + 1]);
        }
        lemma_remove_scope_at(r, pos - 1, n);
        assert(spec_remove_scope(s, n) =~= s.remove(pos));
    }
}

proof fn lemma_table_view_built(t: Seq<Vec<Hook>>, c: CommandHooksConfig, p: Option<Seq<char>>)
    requires
        tables_built_from(t, c, p),
    ensures
        table_view(t) == spec_built_table(c, p),
{
    assert(table_view(t) =~= spec_built_table(c, p));
}

/// Removing a scope undoes installing it: installing hooks under a scope and removing that
/// scope afterwards leaves the scopes as removing it alone would, which for a scope that was
/// not installed is the scopes as they were.
pub proof fn law_scope_remove_undoes_insert(
    s: Seq<(Seq<char>, Seq<Seq<HookModel>>)>,
    n: Seq<char>,
    t: Seq<Seq<HookModel>>,
)
    ensures
        spec_remove_scope(spec_insert_scope(s, n, t), n) == spec_remove_scope(s, n),
        (forall|i: int| 0 <= i < s.len() ==> (#[trigger] s[i]).0 != n) ==> spec_remove_scope(
            spec_insert_scope(s, n, t),
            n,
        ) == s,
    decreases s.len(),
{
    if s.len() == 0 {
        let ins = spec_insert_scope(s, n, t);
        assert(ins.drop_first() =~= s);
    } else if s[0].0 == n {
        let ins = spec_insert_scope(s, n, t);
        assert(ins.drop_first() =~= s.drop_first());
    } else if seq_lt(n, s[0].0) {
        let ins = spec_insert_scope(s, n, t);
        assert(ins.drop_first() =~= s);
    } else {
        let ins = spec_insert_scope(s, n, t);
        let r = s.drop_first();
        law_scope_remove_undoes_insert(r, n, t);
        assert(ins[0] == s[0]);
        assert(ins.drop_first() =~= spec_insert_scope(r, n, t));
    }
    if forall|i: int| 0 <= i < s.len() ==> (#[trigger] s[i]).0 != n {
        lemma_remove_scope_absent(s, n);
    }
}

/// A hook whose `matcher` pattern does not match the text an event is matched on (or whose
/// event has no such text) does not meet its matcher; on events that use matchers it is then
/// skipped: the dispatch neither runs it, nor reports it, nor records it.
pub proof fn law_unmatched_pattern_skips_hook(
    st: PlanState,
    h: HookModel,
    j: int,
    e: HookEvent,
    p: Seq<char>,
)
    requires
        h.config_error is None,
        h.matcher.matcher_regex == Some(p),
        !(spec_matcher_text(e) matches Some(t) && regex_is_match(p, t)),
    ensures
        !spec_matches(h.matcher, e),
        plan_step(st, h, j, true, e) == st,
{
}

/// A hook whose tool-name pattern does not match the event's tool name is skipped likewise,
/// and so is one that names another tool.
pub proof fn law_other_tool_skips_hook(st: PlanState, h: HookModel, j: int, e: HookEvent)
    requires
        h.config_error is None,
        (h.matcher.tool_name matches Some(n) && spec_tool_name(e) != Some(n)) || (
        h.matcher.tool_name_regex matches Some(p) && !(spec_tool_name(e) matches Some(t)
            && regex_is_match(p, t))),
    ensures
        !spec_matches(h.matcher, e),
        plan_step(st, h, j, true, e) == st,
{
}

} // verus!
