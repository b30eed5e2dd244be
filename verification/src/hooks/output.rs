//! How a finished hook command becomes a hook result: exit codes, standard error previews,
//! and the JSON a hook prints on standard output.
use crate::hooks::types::{
    is_error_result, is_plain_success, spec_supports_exit_2_block,
    spec_supports_output_decisions, HookEventKey, HookPermissionDecision, HookResult,
    HookResultControl,
};
use crate::json::{member, member_index, JsonValue};
use crate::text::{
    ascii_lower_seq, chars_of, concat, extend_chars, owned, str_eq, string_of, trim, trim_chars,
};
use vstd::prelude::*;

verus! {

/// Lower-casing of `s` in the Unicode sense, as `str::to_lowercase` computes it.
pub uninterp spec fn unicode_lowercase(s: Seq<char>) -> Seq<char>;

/// Every character of `s` is ASCII.
pub open spec fn all_ascii(s: Seq<char>) -> bool {
    forall|i: int| 0 <= i < s.len() ==> (s[i] as u32) < 128
}

/// The lower-casing of `s` by `str::to_lowercase`: on ASCII text it is ASCII lower-casing
/// (what `str::to_ascii_lowercase` gives), beyond ASCII the Unicode lower-casing.
pub open spec fn lowercased(s: Seq<char>) -> Seq<char> {
    if all_ascii(s) {
        ascii_lower_seq(s)
    } else {
        unicode_lowercase(s)
    }
}

/// Unicode lower-casing (`str::to_lowercase`). On ASCII text it lower-cases the ASCII letters
/// and keeps every other character, as `str::to_ascii_lowercase` does; the documentation of
/// `to_ascii_lowercase` sends to `to_lowercase` for lower-casing the ASCII characters together
/// with the others.
#[verifier::external_body]
fn to_lowercase(s: &str) -> (r: String)
    ensures
        r@ == unicode_lowercase(s@),
        all_ascii(s@) ==> r@ == ascii_lower_seq(s@),
{
    s.to_lowercase()
}

/// The text that `String::from_utf8_lossy` reads from bytes: valid UTF-8 decoded, each invalid
/// sequence replaced by U+FFFD.
pub uninterp spec fn utf8_lossy(b: Seq<u8>) -> Seq<char>;

/// Decodes bytes as UTF-8, replacing invalid sequences (`String::from_utf8_lossy`).
#[verifier::external_body]
pub(crate) fn decode_utf8_lossy(b: &[u8]) -> (r: String)
    ensures
        r@ == utf8_lossy(b@),
{
    String::from_utf8_lossy(b).into_owned()
}

/// A decision word of a hook.
#[derive(Debug, Clone, Copy, PartialEq, Eq, Structural)]
pub enum ParsedDecision {
    Allow,
    Deny,
    Ask,
}

/// The permission decision a lower-cased word names.
pub open spec fn spec_permission_word(w: Seq<char>) -> Option<HookPermissionDecision> {
    if w == "allow"@ || w == "approve"@ || w == "continue"@ {
        Some(HookPermissionDecision::Allow)
    } else if w == "deny"@ || w == "block"@ || w == "abort"@ {
        Some(HookPermissionDecision::Deny)
    } else if w == "ask"@ {
        Some(HookPermissionDecision::Ask)
    } else {
        None
    }
}

/// The decision a lower-cased word names.
pub open spec fn spec_decision_word(w: Seq<char>) -> Option<ParsedDecision> {
    if w == "allow"@ || w == "approve"@ || w == "continue"@ {
        Some(ParsedDecision::Allow)
    } else if w == "block"@ || w == "deny"@ || w == "abort"@ {
        Some(ParsedDecision::Deny)
    } else if w == "ask"@ {
        Some(ParsedDecision::Ask)
    } else {
        None
    }
}

/// The permission decision named by `s`, trimmed and lower-cased.
pub open spec fn spec_parse_permission_decision(s: Seq<char>) -> Option<HookPermissionDecision> {
    spec_permission_word(lowercased(trim(s)))
}

/// The decision named by `s`, trimmed and lower-cased.
pub open spec fn spec_parse_decision(s: Seq<char>) -> Option<ParsedDecision> {
    spec_decision_word(lowercased(trim(s)))
}

fn lower_trimmed(decision: &str) -> (r: String)
    ensures
        r@ == lowercased(trim(decision@)),
{
    let t = crate::text::trim_str(decision);
    to_lowercase(t.as_str())
}

/// Reads a permission decision: `allow`, `approve`, `continue` allow; `deny`, `block`, `abort`
/// deny; `ask` asks; after trimming and lower-casing.
pub fn parse_permission_decision(decision: &str) -> (r: Option<HookPermissionDecision>)
    ensures
        r == spec_parse_permission_decision(decision@),
{
    let w = lower_trimmed(decision);
    let w = w.as_str();
    if str_eq(w, "allow") || str_eq(w, "approve") || str_eq(w, "continue") {
        Some(HookPermissionDecision::Allow)
    } else if str_eq(w, "deny") || str_eq(w, "block") || str_eq(w, "abort") {
        Some(HookPermissionDecision::Deny)
    } else if str_eq(w, "ask") {
        Some(HookPermissionDecision::Ask)
    } else {
        None
    }
}

/// Reads a decision word: `allow`, `approve`, `continue` allow; `block`, `deny`, `abort` deny;
/// `ask` asks; after trimming and lower-casing.
pub fn parse_decision(decision: &str) -> (r: Option<ParsedDecision>)
    ensures
        r == spec_parse_decision(decision@),
{
    let w = lower_trimmed(decision);
    let w = w.as_str();
    if str_eq(w, "allow") || str_eq(w, "approve") || str_eq(w, "continue") {
        Some(ParsedDecision::Allow)
    } else if str_eq(w, "block") || str_eq(w, "deny") || str_eq(w, "abort") {
        Some(ParsedDecision::Deny)
    } else if str_eq(w, "ask") {
        Some(ParsedDecision::Ask)
    } else {
        None
    }
}

/// The string a JSON value holds, if it is a string.
pub open spec fn json_str(v: Option<JsonValue>) -> Option<Seq<char>> {
    match v {
        Some(JsonValue::Str(s)) => Some(s@),
        _ => None,
    }
}

/// The members of a JSON value, if it is an object.
pub open spec fn json_object(v: Option<JsonValue>) -> Option<Seq<(String, JsonValue)>> {
    match v {
        Some(JsonValue::Object(m)) => Some(m@),
        _ => None,
    }
}

/// The member named `k1`, or failing that the member named `k2`.
pub open spec fn either(m: Seq<(String, JsonValue)>, k1: Seq<char>, k2: Seq<char>) -> Option<
    JsonValue,
> {
    if member(m, k1) is Some {
        member(m, k1)
    } else {
        member(m, k2)
    }
}

/// A string trimmed, and dropped when nothing is left.
pub open spec fn non_blank(s: Option<Seq<char>>) -> Option<Seq<char>> {
    match s {
        Some(x) => if trim(x).len() > 0 {
            Some(trim(x))
        } else {
            None
        },
        None => None,
    }
}

/// The `hookSpecificOutput` (or `hook_specific_output`) object of a hook's output.
pub open spec fn spec_hook_specific(obj: Seq<(String, JsonValue)>) -> Option<
    Seq<(String, JsonValue)>,
> {
    json_object(either(obj, "hookSpecificOutput"@, "hook_specific_output"@))
}

/// The additional context lines a hook's output contributes: its system message, its additional
/// context, and the additional context of its hook-specific output, each trimmed and only when
/// not blank.
pub open spec fn spec_contexts(obj: Seq<(String, JsonValue)>) -> Seq<Seq<char>> {
    let sys = non_blank(json_str(either(obj, "systemMessage"@, "system_message"@)));
    let ctx = non_blank(json_str(either(obj, "additionalContext"@, "additional_context"@)));
    let hs = match spec_hook_specific(obj) {
        Some(h) => non_blank(json_str(either(h, "additionalContext"@, "additional_context"@))),
        None => None,
    };
    opt_seq(sys) + opt_seq(ctx) + opt_seq(hs)
}

/// A one-element sequence for `Some`, the empty one for `None`.
pub open spec fn opt_seq(o: Option<Seq<char>>) -> Seq<Seq<char>> {
    match o {
        Some(x) => seq![x],
        None => seq![],
    }
}

/// The replacement input a hook's output names: `updatedInput` (or `updated_input`) at the top,
/// or failing that in its hook-specific output.
pub open spec fn spec_updated_input(obj: Seq<(String, JsonValue)>) -> Option<JsonValue> {
    match either(obj, "updatedInput"@, "updated_input"@) {
        Some(v) => Some(v),
        None => match spec_hook_specific(obj) {
            Some(h) => either(h, "updatedInput"@, "updated_input"@),
            None => None,
        },
    }
}

/// The `permissionDecision` string of an object.
pub open spec fn spec_permission_decision_str(m: Seq<(String, JsonValue)>) -> Option<Seq<char>> {
    json_str(either(m, "permissionDecision"@, "permission_decision"@))
}

/// The `permissionDecisionReason` string of an object.
pub open spec fn spec_permission_decision_reason_str(m: Seq<(String, JsonValue)>) -> Option<
    Seq<char>,
> {
    json_str(either(m, "permissionDecisionReason"@, "permission_decision_reason"@))
}

/// The permission decision of a hook's output: the hook-specific output's word when it has
/// one, else the top level's.
pub open spec fn spec_extract_permission_decision(
    obj: Seq<(String, JsonValue)>,
    hs: Option<Seq<(String, JsonValue)>>,
) -> Option<HookPermissionDecision> {
    let word = match hs {
        Some(h) => match spec_permission_decision_str(h) {
            Some(w) => Some(w),
            None => spec_permission_decision_str(obj),
        },
        None => spec_permission_decision_str(obj),
    };
    match word {
        Some(w) => spec_parse_permission_decision(w),
        None => None,
    }
}

/// The reason given for a permission decision, trimmed and not blank.
pub open spec fn spec_extract_permission_decision_reason(
    obj: Seq<(String, JsonValue)>,
    hs: Option<Seq<(String, JsonValue)>>,
) -> Option<Seq<char>> {
    let raw = match hs {
        Some(h) => match spec_permission_decision_reason_str(h) {
            Some(w) => Some(w),
            None => spec_permission_decision_reason_str(obj),
        },
        None => spec_permission_decision_reason_str(obj),
    };
    non_blank(raw)
}

/// The `decision.behavior` word of the hook-specific output, read as a permission decision.
pub open spec fn spec_extract_permission_behavior(hs: Option<Seq<(String, JsonValue)>>) -> Option<
    HookPermissionDecision,
> {
    match hs {
        Some(h) => match json_object(member(h, "decision"@)) {
            Some(d) => match json_str(member(d, "behavior"@)) {
                Some(w) => spec_parse_permission_decision(w),
                None => None,
            },
            None => None,
        },
        None => None,
    }
}

/// The reason a hook gives for blocking: its `reason` (or `stopReason`), else the permission
/// decision reason of its hook-specific output.
pub open spec fn spec_decision_reason(
    obj: Seq<(String, JsonValue)>,
    hs: Option<Seq<(String, JsonValue)>>,
) -> Option<Seq<char>> {
    match non_blank(json_str(either(obj, "reason"@, "stopReason"@))) {
        Some(r) => Some(r),
        None => match hs {
            Some(h) => non_blank(spec_permission_decision_reason_str(h)),
            None => None,
        },
    }
}

/// The decision word at the top of a hook's output.
pub open spec fn spec_top_decision(obj: Seq<(String, JsonValue)>) -> Option<ParsedDecision> {
    match json_str(member(obj, "decision"@)) {
        Some(w) => spec_parse_decision(w),
        None => None,
    }
}

/// The reason text of a `Block`, none for `Continue`.
pub open spec fn block_reason(c: HookResultControl) -> Option<Seq<char>> {
    match c {
        HookResultControl::Continue => None,
        HookResultControl::Block { reason } => Some(reason@),
    }
}

/// What the decisions in a hook's output amount to: whether it blocks and why, the permission
/// decision and its reason.
pub struct DecisionOutcome {
    pub block: Option<Seq<char>>,
    pub permission_decision: Option<HookPermissionDecision>,
    pub permission_decision_reason: Option<Seq<char>>,
}

/// The decisions of a hook's output for an event kind. Before a tool runs, a `deny` or `ask`
/// decision word blocks with the hook's reason; a denying or asking permission decision blocks
/// with its reason. For a permission request the output only sets the permission decision. On
/// other events that honour decisions, a denying decision word blocks.
pub open spec fn spec_decisions(key: HookEventKey, obj: Seq<(String, JsonValue)>) -> DecisionOutcome {
    let hs = spec_hook_specific(obj);
    if !spec_supports_output_decisions(key) {
        DecisionOutcome { block: None, permission_decision: None, permission_decision_reason: None }
    } else if key == HookEventKey::PreToolUse {
        let pd = spec_extract_permission_decision(obj, hs);
        let pdr = if pd is Some {
            spec_extract_permission_decision_reason(obj, hs)
        } else {
            None
        };
        let top = spec_top_decision(obj);
        let block = if top == Some(ParsedDecision::Deny) || top == Some(ParsedDecision::Ask) {
            Some(
                match spec_decision_reason(obj, hs) {
                    Some(r) => r,
                    None => "hook blocked tool invocation"@,
                },
            )
        } else if pd == Some(HookPermissionDecision::Deny) || pd == Some(
            HookPermissionDecision::Ask,
        ) {
            Some(
                match pdr {
                    Some(r) => r,
                    None => match spec_decision_reason(obj, hs) {
                        Some(r) => r,
                        None => "hook blocked tool invocation"@,
                    },
                },
            )
        } else {
            None
        };
        DecisionOutcome { block, permission_decision: pd, permission_decision_reason: pdr }
    } else if key == HookEventKey::PermissionRequest {
        let pd = match spec_extract_permission_decision(obj, hs) {
            Some(d) => Some(d),
            None => match spec_extract_permission_behavior(hs) {
                Some(d) => Some(d),
                None => match json_str(member(obj, "decision"@)) {
                    Some(w) => spec_parse_permission_decision(w),
                    None => None,
                },
            },
        };
        let pdr = if pd is Some {
            spec_extract_permission_decision_reason(obj, hs)
        } else {
            None
        };
        DecisionOutcome { block: None, permission_decision: pd, permission_decision_reason: pdr }
    } else {
        let block = if spec_top_decision(obj) == Some(ParsedDecision::Deny) {
            Some(
                match non_blank(json_str(either(obj, "reason"@, "stopReason"@))) {
                    Some(r) => r,
                    None => "hook blocked operation"@,
                },
            )
        } else {
            None
        };
        DecisionOutcome { block, permission_decision: None, permission_decision_reason: None }
    }
}

/// The view of an optional string.
pub open spec fn opt_string_view(s: Option<String>) -> Option<Seq<char>> {
    match s {
        Some(x) => Some(x@),
        None => None,
    }
}

/// `r` is what applying the JSON `v` printed by a hook yields: nothing but success when `v` is
/// not an object; otherwise its context lines, its replacement input and its decisions.
pub open spec fn applies_stdout_json(key: HookEventKey, v: JsonValue, r: HookResult) -> bool {
    match v {
        JsonValue::Object(m) => {
            let d = spec_decisions(key, m@);
            &&& r.additional_context@.map_values(|s: String| s@) == spec_contexts(m@)
            &&& r.updated_input == spec_updated_input(m@)
            &&& block_reason(r.control) == d.block
            &&& r.permission_decision == d.permission_decision
            &&& opt_string_view(r.permission_decision_reason) == d.permission_decision_reason
            &&& r.error is None
        },
        _ => is_plain_success(r),
    }
}

/// Index of the first member named `key`.
fn find_member(members: &Vec<(String, JsonValue)>, key: &str) -> (r: Option<usize>)
    ensures
        match r {
            Some(i) => i < members.len() && member_index(members@, key@) == Some(i as int),
            None => member_index(members@, key@) is None,
        },
{
    proof {
        lemma_member_index_facts(members@, key@);
    }
    let mut i: usize = 0;
    while i < members.len()
        invariant
            i <= members.len(),
            forall|j: int| 0 <= j < i ==> members@[j].0@ != key@,
            member_index(members@, key@) matches Some(k) ==> (forall|j: int|
                0 <= j < k ==> members@[j].0@ != key@) && 0 <= k < members.len()
                && members@[k].0@ == key@,
            member_index(members@, key@) is None ==> forall|j: int|
                0 <= j < members.len() ==> members@[j].0@ != key@,
        decreases members.len() - i,
    {
        if str_eq(members[i].0.as_str(), key) {
            proof {
                if let Some(k) = member_index(members@, key@) {
                    assert(k == i);
                }
            }
            return Some(i);
        }
        i = i + 1;
    }
    None
}

proof fn lemma_member_index_facts(members: Seq<(String, JsonValue)>, key: Seq<char>)
    ensures
        member_index(members, key) matches Some(i) ==> 0 <= i < members.len() && members[i].0@
            == key && forall|j: int| 0 <= j < i ==> members[j].0@ != key,
        member_index(members, key) is None ==> forall|j: int|
            0 <= j < members.len() ==> members[j].0@ != key,
    decreases members.len(),
{
    if members.len() > 0 && members[0].0@ != key {
        lemma_member_index_facts(members.drop_first(), key);
        assert forall|j: int| 1 <= j < members.len() implies members[j] == members.drop_first()[j
            - 1] by {}
    }
}

/// The member named `k1`, or failing that `k2`.
fn get_either<'a>(members: &'a Vec<(String, JsonValue)>, k1: &str, k2: &str) -> (r: Option<
    &'a JsonValue,
>)
    ensures
        match r {
            Some(v) => either(members@, k1@, k2@) == Some(*v),
            None => either(members@, k1@, k2@) is None,
        },
{
    match find_member(members, k1) {
        Some(i) => Some(&members[i].1),
        None => match find_member(members, k2) {
            Some(i) => Some(&members[i].1),
            None => None,
        },
    }
}

/// The string a JSON value holds.
fn as_str<'a>(v: Option<&'a JsonValue>) -> (r: Option<&'a str>)
    ensures
        match r {
            Some(s) => json_str(match v {
                Some(x) => Some(*x),
                None => None,
            }) == Some(s@),
            None => json_str(match v {
                Some(x) => Some(*x),
                None => None,
            }) is None,
        },
{
    match v {
        Some(JsonValue::Str(s)) => Some(s.as_str()),
        _ => None,
    }
}

/// The members of a JSON value that is an object.
fn as_object<'a>(v: Option<&'a JsonValue>) -> (r: Option<&'a Vec<(String, JsonValue)>>)
    ensures
        match r {
            Some(m) => json_object(match v {
                Some(x) => Some(*x),
                None => None,
            }) == Some(m@),
            None => json_object(match v {
                Some(x) => Some(*x),
                None => None,
            }) is None,
        },
{
    match v {
        Some(JsonValue::Object(m)) => Some(m),
        _ => None,
    }
}

/// A string trimmed, kept only when not blank.
fn non_blank_str(s: Option<&str>) -> (r: Option<String>)
    ensures
        opt_string_view(r) == non_blank(match s {
            Some(x) => Some(x@),
            None => None,
        }),
{
    match s {
        Some(x) => {
            let t = crate::text::trim_str(x);
            if crate::text::is_blank_str(x) {
                None
            } else {
                Some(t)
            }
        },
        None => None,
    }
}

fn hook_specific_of(obj: &Vec<(String, JsonValue)>) -> (r: Option<&Vec<(String, JsonValue)>>)
    ensures
        match r {
            Some(m) => spec_hook_specific(obj@) == Some(m@),
            None => spec_hook_specific(obj@) is None,
        },
{
    as_object(get_either(obj, "hookSpecificOutput", "hook_specific_output"))
}

fn permission_decision_str(m: &Vec<(String, JsonValue)>) -> (r: Option<&str>)
    ensures
        match r {
            Some(s) => spec_permission_decision_str(m@) == Some(s@),
            None => spec_permission_decision_str(m@) is None,
        },
{
    as_str(get_either(m, "permissionDecision", "permission_decision"))
}

fn permission_decision_reason_str(m: &Vec<(String, JsonValue)>) -> (r: Option<&str>)
    ensures
        match r {
            Some(s) => spec_permission_decision_reason_str(m@) == Some(s@),
            None => spec_permission_decision_reason_str(m@) is None,
        },
{
    as_str(get_either(m, "permissionDecisionReason", "permission_decision_reason"))
}

/// The permission decision of a hook's output.
fn extract_permission_decision(
    obj: &Vec<(String, JsonValue)>,
    hook_specific: Option<&Vec<(String, JsonValue)>>,
) -> (r: Option<HookPermissionDecision>)
    ensures
        r == spec_extract_permission_decision(
            obj@,
            match hook_specific {
                Some(h) => Some(h@),
                None => None,
            },
        ),
{
    let word = match hook_specific {
        Some(h) => match permission_decision_str(h) {
            Some(w) => Some(w),
            None => permission_decision_str(obj),
        },
        None => permission_decision_str(obj),
    };
    match word {
        Some(w) => parse_permission_decision(w),
        None => None,
    }
}

/// The reason given for a permission decision.
fn extract_permission_decision_reason(
    obj: &Vec<(String, JsonValue)>,
    hook_specific: Option<&Vec<(String, JsonValue)>>,
) -> (r: Option<String>)
    ensures
        opt_string_view(r) == spec_extract_permission_decision_reason(
            obj@,
            match hook_specific {
                Some(h) => Some(h@),
                None => None,
            },
        ),
{
    let raw = match hook_specific {
        Some(h) => match permission_decision_reason_str(h) {
            Some(w) => Some(w),
            None => permission_decision_reason_str(obj),
        },
        None => permission_decision_reason_str(obj),
    };
    non_blank_str(raw)
}

/// The `decision.behavior` of the hook-specific output.
fn extract_permission_behavior(hook_specific: Option<&Vec<(String, JsonValue)>>) -> (r: Option<
    HookPermissionDecision,
>)
    ensures
        r == spec_extract_permission_behavior(
            match hook_specific {
                Some(h) => Some(h@),
                None => None,
            },
        ),
{
    match hook_specific {
        Some(h) => {
            let d = match find_member(h, "decision") {
                Some(i) => Some(&h[i].1),
                None => None,
            };
            match as_object(d) {
                Some(dm) => {
                    let b = match find_member(dm, "behavior") {
                        Some(i) => Some(&dm[i].1),
                        None => None,
                    };
                    match as_str(b) {
                        Some(w) => parse_permission_decision(w),
                        None => None,
                    }
                },
                None => None,
            }
        },
        None => None,
    }
}

/// The reason a hook gives for blocking.
fn decision_reason(
    obj: &Vec<(String, JsonValue)>,
    hook_specific: Option<&Vec<(String, JsonValue)>>,
) -> (r: Option<String>)
    ensures
        opt_string_view(r) == spec_decision_reason(
            obj@,
            match hook_specific {
                Some(h) => Some(h@),
                None => None,
            },
        ),
{
    match non_blank_str(as_str(get_either(obj, "reason", "stopReason"))) {
        Some(r) => Some(r),
        None => match hook_specific {
            Some(h) => non_blank_str(permission_decision_reason_str(h)),
            None => None,
        },
    }
}

fn top_decision(obj: &Vec<(String, JsonValue)>) -> (r: Option<ParsedDecision>)
    ensures
        r == spec_top_decision(obj@),
{
    let d = match find_member(obj, "decision") {
        Some(i) => Some(&obj[i].1),
        None => None,
    };
    match as_str(d) {
        Some(w) => parse_decision(w),
        None => None,
    }
}

/// The decisions of a hook's output for an event kind.
fn decide(key: HookEventKey, obj: &Vec<(String, JsonValue)>) -> (r: (
    HookResultControl,
    Option<HookPermissionDecision>,
    Option<String>,
))
    ensures
        block_reason(r.0) == spec_decisions(key, obj@).block,
        r.1 == spec_decisions(key, obj@).permission_decision,
        opt_string_view(r.2) == spec_decisions(key, obj@).permission_decision_reason,
{
    let hs = hook_specific_of(obj);
    if !key.supports_output_decisions() {
        return (HookResultControl::Continue, None, None);
    }
    match key {
        HookEventKey::PreToolUse => {
            let pd = extract_permission_decision(obj, hs);
            let pdr = if pd.is_some() {
                extract_permission_decision_reason(obj, hs)
            } else {
                None
            };
            let top = top_decision(obj);
            let deny_or_ask = match top {
                Some(ParsedDecision::Deny) | Some(ParsedDecision::Ask) => true,
                _ => false,
            };
            if deny_or_ask {
                let reason = match decision_reason(obj, hs) {
                    Some(r) => r,
                    None => owned("hook blocked tool invocation"),
                };
                return (HookResultControl::Block { reason }, pd, pdr);
            }
            let pd_blocks = match pd {
                Some(HookPermissionDecision::Deny) | Some(HookPermissionDecision::Ask) => true,
                _ => false,
            };
            if pd_blocks {
                let reason = match &pdr {
                    Some(r) => r.clone(),
                    None => match decision_reason(obj, hs) {
                        Some(r) => r,
                        None => owned("hook blocked tool invocation"),
                    },
                };
                (HookResultControl::Block { reason }, pd, pdr)
            } else {
                (HookResultControl::Continue, pd, pdr)
            }
        },
        HookEventKey::PermissionRequest => {
            let pd = match extract_permission_decision(obj, hs) {
                Some(d) => Some(d),
                None => match extract_permission_behavior(hs) {
                    Some(d) => Some(d),
                    None => {
                        let d = match find_member(obj, "decision") {
                            Some(i) => Some(&obj[i].1),
                            None => None,
                        };
                        match as_str(d) {
                            Some(w) => parse_permission_decision(w),
                            None => None,
                        }
                    },
                },
            };
            let pdr = if pd.is_some() {
                extract_permission_decision_reason(obj, hs)
            } else {
                None
            };
            (HookResultControl::Continue, pd, pdr)
        },
        _ => {
            if top_decision(obj) == Some(ParsedDecision::Deny) {
                let reason = match non_blank_str(as_str(get_either(obj, "reason", "stopReason"))) {
                    Some(r) => r,
                    None => owned("hook blocked operation"),
                };
                (HookResultControl::Block { reason }, None, None)
            } else {
                (HookResultControl::Continue, None, None)
            }
        },
    }
}

/// Applies the JSON a hook printed: its context lines, its replacement input and its
/// decisions; output that is not an object changes nothing.
pub fn apply_stdout_json(event_key: HookEventKey, stdout_json: JsonValue) -> (r: HookResult)
    ensures
        applies_stdout_json(event_key, stdout_json, r),
{
    let mut obj = match stdout_json {
        JsonValue::Object(m) => m,
        _ => {
            return HookResult::success();
        },
    };
    let ghost m0 = obj@;
    let mut contexts: Vec<String> = Vec::new();
    if let Some(s) = non_blank_str(as_str(get_either(&obj, "systemMessage", "system_message"))) {
        contexts.push(s);
    }
    if let Some(s) = non_blank_str(
        as_str(get_either(&obj, "additionalContext", "additional_context")),
    ) {
        contexts.push(s);
    }
    let hs_ctx = match hook_specific_of(&obj) {
        Some(h) => non_blank_str(as_str(get_either(h, "additionalContext", "additional_context"))),
        None => None,
    };
    if let Some(s) = hs_ctx {
        contexts.push(s);
    }
    assert(contexts@.map_values(|s: String| s@) =~= spec_contexts(m0));
    let (control, pd, pdr) = decide(event_key, &obj);
    let updated_input = take_updated_input(&mut obj);
    HookResult {
        control,
        permission_decision: pd,
        permission_decision_reason: pdr,
        updated_input,
        additional_context: contexts,
        error: None,
    }
}

/// Removes the member at `i` and gives its value.
fn take_member(members: &mut Vec<(String, JsonValue)>, i: usize) -> (r: JsonValue)
    requires
        i < old(members).len(),
    ensures
        r == old(members)@[i as int].1,
{
    let (_, v) = members.remove(i);
    v
}

fn find_either(members: &Vec<(String, JsonValue)>, k1: &str, k2: &str) -> (r: Option<usize>)
    ensures
        match r {
            Some(i) => i < members.len() && either(members@, k1@, k2@) == Some(
                members@[i as int].1,
            ),
            None => either(members@, k1@, k2@) is None,
        },
{
    proof {
        lemma_member_index_facts(members@, k1@);
        lemma_member_index_facts(members@, k2@);
    }
    match find_member(members, k1) {
        Some(i) => Some(i),
        None => find_member(members, k2),
    }
}

/// Moves the replacement input out of a hook's output object.
fn take_updated_input(obj: &mut Vec<(String, JsonValue)>) -> (r: Option<JsonValue>)
    ensures
        r == spec_updated_input(old(obj)@),
{
    let ghost m0 = obj@;
    match find_either(obj, "updatedInput", "updated_input") {
        Some(i) => Some(take_member(obj, i)),
        None => {
            match find_either(obj, "hookSpecificOutput", "hook_specific_output") {
                Some(i) => {
                    let hs = take_member(obj, i);
                    match hs {
                        JsonValue::Object(mut h) => match find_either(
                            &h,
                            "updatedInput",
                            "updated_input",
                        ) {
                            Some(j) => Some(take_member(&mut h, j)),
                            None => None,
                        },
                        _ => None,
                    }
                },
                None => None,
            }
        },
    }
}

/// The lines of `s`, split at every `\n`; the last one is what follows the last `\n`.
pub open spec fn split_lines(s: Seq<char>) -> Seq<Seq<char>>
    decreases s.len(),
{
    if s.len() == 0 {
        seq![seq![]]
    } else if s.last() == '\n' {
        split_lines(s.drop_last()).push(seq![])
    } else {
        let prev = split_lines(s.drop_last());
        prev.update(prev.len() - 1, prev.last().push(s.last()))
    }
}

proof fn lemma_split_lines_nonempty(s: Seq<char>)
    ensures
        split_lines(s).len() >= 1,
    decreases s.len(),
{
    if s.len() > 0 {
        lemma_split_lines_nonempty(s.drop_last());
    }
}

/// The non-blank lines, trimmed.
pub open spec fn trimmed_non_blank(lines: Seq<Seq<char>>) -> Seq<Seq<char>>
    decreases lines.len(),
{
    if lines.len() == 0 {
        seq![]
    } else {
        let rest = trimmed_non_blank(lines.drop_last());
        if trim(lines.last()).len() > 0 {
            rest.push(trim(lines.last()))
        } else {
            rest
        }
    }
}

/// The texts that may hold a hook's JSON output, in the order in which they are tried: the
/// whole trimmed output, then each of its non-blank lines, trimmed. None when the output is
/// blank.
pub open spec fn spec_stdout_json_candidates(text: Seq<char>) -> Seq<Seq<char>> {
    let t = trim(text);
    if t.len() == 0 {
        seq![]
    } else {
        seq![t] + trimmed_non_blank(split_lines(t))
    }
}

/// The candidate texts of a hook's standard output, decoded as UTF-8 with replacement.
pub fn stdout_json_candidates(stdout: &[u8]) -> (r: Vec<String>)
    ensures
        r@.map_values(|s: String| s@) == spec_stdout_json_candidates(utf8_lossy(stdout@)),
{
    let text = decode_utf8_lossy(stdout);
    let all = chars_of(text.as_str());
    let t = trim_chars(all.as_slice());
    let mut out: Vec<String> = Vec::new();
    if t.len() == 0 {
        assert(out@.map_values(|s: String| s@) =~= seq![]);
        return out;
    }
    out.push(string_of(t.as_slice()));
    let mut line: Vec<char> = Vec::new();
    let mut i: usize = 0;
    let ghost head = seq![t@];
    let ghost mut done: Seq<Seq<char>> = seq![];
    assert(t@.take(0) =~= Seq::<char>::empty());
    assert(split_lines(t@.take(0)) =~= done.push(line@));
    assert(out@.map_values(|s: String| s@) =~= head + trimmed_non_blank(done));
    while i < t.len()
        invariant
            i <= t.len(),
            head == seq![t@],
            split_lines(t@.take(i as int)) == done.push(line@),
            out@.map_values(|s: String| s@) == head + trimmed_non_blank(done),
        decreases t.len() - i,
    {
        let c = t[i];
        assert(t@.take(i + 1).drop_last() =~= t@.take(i as int));
        assert(t@.take(i + 1).last() == c);
        if c == '\n' {
            let lt = trim_chars(line.as_slice());
            let ghost new_done = done.push(line@);
            assert(new_done.drop_last() =~= done);
            assert(new_done.last() == line@);
            let ghost before = out@.map_values(|s: String| s@);
            if lt.len() > 0 {
                let st = string_of(lt.as_slice());
                out.push(st);
                assert(out@.map_values(|s: String| s@) =~= before.push(lt@));
            } else {
                assert(out@.map_values(|s: String| s@) =~= before);
            }
            assert(out@.map_values(|s: String| s@) =~= head + trimmed_non_blank(new_done));
            proof {
                done = new_done;
            }
            line = Vec::new();
            assert(split_lines(t@.take(i + 1)) =~= done.push(line@));
        } else {
            line.push(c);
            assert(split_lines(t@.take(i + 1)) =~= done.push(line@));
        }
        i = i + 1;
    }
    let lt = trim_chars(line.as_slice());
    let ghost all_lines = done.push(line@);
    assert(all_lines.drop_last() =~= done);
    assert(all_lines.last() == line@);
    let ghost before = out@.map_values(|s: String| s@);
    if lt.len() > 0 {
        let st = string_of(lt.as_slice());
        out.push(st);
        assert(out@.map_values(|s: String| s@) =~= before.push(lt@));
    } else {
        assert(out@.map_values(|s: String| s@) =~= before);
    }
    assert(t@.take(t.len() as int) =~= t@);
    assert(out@.map_values(|s: String| s@) =~= head + trimmed_non_blank(all_lines));
    out
}

/// The first 300 characters of the trimmed, lossily decoded bytes, followed by an ellipsis when
/// there were more.
pub open spec fn spec_preview(b: Seq<u8>) -> Seq<char> {
    let t = trim(utf8_lossy(b));
    if t.len() > 300 {
        t.take(300).push('\u{2026}')
    } else {
        t
    }
}

/// A short preview of a hook's error output.
pub fn preview_bytes(bytes: &[u8]) -> (r: String)
    ensures
        r@ == spec_preview(bytes@),
{
    let text = decode_utf8_lossy(bytes);
    let all = chars_of(text.as_str());
    let t = trim_chars(all.as_slice());
    if t.len() > 300 {
        let mut p = crate::text::slice_chars(t.as_slice(), 0, 300);
        p.push('\u{2026}');
        string_of(p.as_slice())
    } else {
        string_of(t.as_slice())
    }
}

/// The result of a hook command that ended. `exit_code` is none when a signal ended it;
/// `status_text` is how the exit status prints; `stdout_json` is the first candidate text of its
/// output that parsed as JSON. Exit code 2 blocks where the event allows blocking (and denies a
/// permission request), with the error output as the reason; elsewhere it is an error. Another
/// non-zero code is an error naming the status and the error output. Code 0 applies the JSON
/// output, if any.
pub open spec fn spec_result_from_output(
    key: HookEventKey,
    exit_code: Option<i32>,
    status_text: Seq<char>,
    stderr: Seq<u8>,
    stdout_json: Option<JsonValue>,
    r: HookResult,
) -> bool {
    match exit_code {
        None => is_error_result(r, "hook command terminated by signal"@),
        Some(code) => if code == 2 {
            let message = spec_preview(stderr);
            if spec_supports_exit_2_block(key) {
                &&& block_reason(r.control) == Some(
                    if message.len() == 0 {
                        "hook blocked operation"@
                    } else {
                        message
                    },
                )
                &&& r.permission_decision == (if key == HookEventKey::PermissionRequest {
                    Some(HookPermissionDecision::Deny)
                } else {
                    None
                })
                &&& r.permission_decision_reason is None
                &&& r.updated_input is None
                &&& r.additional_context@.len() == 0
                &&& r.error is None
            } else {
                is_error_result(r, message)
            }
        } else if code != 0 {
            let preview = spec_preview(stderr);
            is_error_result(
                r,
                if preview.len() == 0 {
                    "hook command exited with "@ + status_text
                } else {
                    "hook command exited with "@ + status_text + ": "@ + preview
                },
            )
        } else {
            match stdout_json {
                None => is_plain_success(r),
                Some(v) => applies_stdout_json(key, v, r),
            }
        },
    }
}

/// Turns a finished hook command into its result.
pub fn result_from_output(
    event_key: HookEventKey,
    exit_code: Option<i32>,
    status_text: &str,
    stderr: &[u8],
    stdout_json: Option<JsonValue>,
) -> (r: HookResult)
    ensures
        spec_result_from_output(event_key, exit_code, status_text@, stderr@, stdout_json, r),
{
    let code = match exit_code {
        None => {
            return HookResult::with_error(owned("hook command terminated by signal"));
        },
        Some(c) => c,
    };
    if code == 2 {
        let message = preview_bytes(stderr);
        if event_key.supports_exit_2_block() {
            let reason = if message.as_str().unicode_len() == 0 {
                owned("hook blocked operation")
            } else {
                message
            };
            let mut result = HookResult::success();
            result.control = HookResultControl::Block { reason };
            if event_key == HookEventKey::PermissionRequest {
                result.permission_decision = Some(HookPermissionDecision::Deny);
            }
            return result;
        }
        return HookResult::with_error(message);
    }
    if code != 0 {
        let preview = preview_bytes(stderr);
        let head = concat("hook command exited with ", status_text);
        let message = if preview.as_str().unicode_len() == 0 {
            head
        } else {
            let with_sep = concat(head.as_str(), ": ");
            concat(with_sep.as_str(), preview.as_str())
        };
        return HookResult::with_error(message);
    }
    match stdout_json {
        None => HookResult::success(),
        Some(v) => apply_stdout_json(event_key, v),
    }
}

/// The result of a prompt or agent hook's verdict `{ok, reason}`: success when `ok`, otherwise a
/// block with the reason, or a stock reason when it is missing or blank.
pub fn decision_to_result(ok: bool, reason: Option<String>) -> (r: HookResult)
    ensures
        ok ==> is_plain_success(r),
        !ok ==> block_reason(r.control) == Some(
            match reason {
                Some(s) => if trim(s@).len() > 0 {
                    s@
                } else {
                    "hook blocked operation"@
                },
                None => "hook blocked operation"@,
            },
        ),
        !ok ==> r.permission_decision is None && r.permission_decision_reason is None
            && r.updated_input is None && r.additional_context@.len() == 0 && r.error is None,
{
    if ok {
        return HookResult::success();
    }
    let reason = match reason {
        Some(s) => if crate::text::is_blank_str(s.as_str()) {
            owned("hook blocked operation")
        } else {
            s
        },
        None => owned("hook blocked operation"),
    };
    let mut result = HookResult::success();
    result.control = HookResultControl::Block { reason };
    result
}

/// `s` with every occurrence of `pat`, read left to right without overlap, replaced by `rep`.
pub open spec fn replace_all(s: Seq<char>, pat: Seq<char>, rep: Seq<char>) -> Seq<char>
    recommends
        pat.len() > 0,
    decreases s.len(),
{
    if s.len() == 0 || pat.len() == 0 {
        s
    } else if s.len() >= pat.len() && s.take(pat.len() as int) == pat {
        rep + replace_all(s.skip(pat.len() as int), pat, rep)
    } else {
        seq![s[0]] + replace_all(s.drop_first(), pat, rep)
    }
}

/// The prompt of a prompt or agent hook with its arguments: every `$ARGUMENTS` replaced by them,
/// or, when the prompt has no such placeholder, the arguments appended under a heading.
pub open spec fn spec_render_prompt(prompt: Seq<char>, arguments: Seq<char>) -> Seq<char> {
    if crate::text::contains(prompt, "$ARGUMENTS"@) {
        replace_all(prompt, "$ARGUMENTS"@, arguments)
    } else {
        prompt + "\n\n$ARGUMENTS:\n"@ + arguments
    }
}

/// Renders a hook prompt with its arguments.
pub fn render_prompt_with_arguments(prompt: &str, arguments: &str) -> (r: String)
    ensures
        r@ == spec_render_prompt(prompt@, arguments@),
{
    let p = chars_of(prompt);
    let pat = chars_of("$ARGUMENTS");
    proof {
        reveal_strlit("$ARGUMENTS");
    }
    assert(pat@.len() == 10);
    if !crate::text::chars_contain(p.as_slice(), pat.as_slice()) {
        let head = concat(prompt, "\n\n$ARGUMENTS:\n");
        return concat(head.as_str(), arguments);
    }
    let rep = chars_of(arguments);
    let mut out: Vec<char> = Vec::new();
    let mut i: usize = 0;
    assert(p@.skip(0) =~= p@);
    assert(out@ + replace_all(p@, pat@, rep@) =~= replace_all(p@, pat@, rep@));
    while i < p.len()
        invariant
            i <= p.len(),
            pat@ == "$ARGUMENTS"@,
            pat@.len() == 10,
            rep@ == arguments@,
            out@ + replace_all(p@.skip(i as int), pat@, rep@) == replace_all(p@, pat@, rep@),
        decreases p.len() - i,
    {
        let ghost rest = p@.skip(i as int);
        if crate::text::chars_occur_at(p.as_slice(), pat.as_slice(), i) {
            proof {
                assert(rest.take(10) =~= p@.subrange(i as int, i + 10));
                assert(rest.skip(10) =~= p@.skip(i + 10));
            }
            extend_chars(&mut out, rep.as_slice());
            i = i + 10;
            proof {
                assert(out@ + replace_all(p@.skip(i as int), pat@, rep@) =~= old_out_plus(
                    out@,
                    rep@,
                    replace_all(p@.skip(i as int), pat@, rep@),
                ));
            }
        } else {
            proof {
                if rest.len() >= 10 {
                    assert(rest.take(10) =~= p@.subrange(i as int, i + 10));
                }
                assert(rest.drop_first() =~= p@.skip(i + 1));
                assert(rest[0] == p@[i as int]);
            }
            out.push(p[i]);
            proof {
                assert(out@ + replace_all(p@.skip(i + 1), pat@, rep@) =~= out@.drop_last() + (
                seq![p@[i as int]] + replace_all(p@.skip(i + 1), pat@, rep@)));
            }
            i = i + 1;
        }
    }
    proof {
        assert(p@.skip(p.len() as int) =~= Seq::<char>::empty());
        assert(out@ + Seq::<char>::empty() =~= out@);
    }
    string_of(out.as_slice())
}

spec fn old_out_plus(out: Seq<char>, rep: Seq<char>, tail: Seq<char>) -> Seq<char> {
    out + tail
}

/// Before a tool runs, a hook output that asks for or denies permission blocks the tool. When
/// the output carries no `decision` word of its own, the block's reason is the permission
/// decision's reason, where it gives one.
pub proof fn law_asking_or_denying_blocks_tool(v: JsonValue, r: HookResult)
    requires
        applies_stdout_json(HookEventKey::PreToolUse, v, r),
        r.permission_decision == Some(HookPermissionDecision::Ask) || r.permission_decision == Some(
            HookPermissionDecision::Deny,
        ),
    ensures
        r.control is Block,
        (v matches JsonValue::Object(m) && member(m@, "decision"@) is None
            && r.permission_decision_reason is Some) ==> block_reason(r.control)
            == opt_string_view(r.permission_decision_reason),
{
    reveal_strlit("decision");
}

/// Before a tool runs, a hook output that allows the tool, or names no permission decision,
/// and carries no `decision` word does not block it.
pub proof fn law_allowing_does_not_block_tool(v: JsonValue, r: HookResult)
    requires
        applies_stdout_json(HookEventKey::PreToolUse, v, r),
        r.permission_decision == Some(HookPermissionDecision::Allow) || r.permission_decision is None,
        v matches JsonValue::Object(m) && member(m@, "decision"@) is None,
    ensures
        r.control is Continue,
{
}

} // verus!
