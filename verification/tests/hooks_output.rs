use codex_logic::hooks::output::{
    apply_stdout_json, decision_to_result, parse_decision, parse_permission_decision,
    preview_bytes, render_prompt_with_arguments, result_from_output, stdout_json_candidates,
    ParsedDecision,
};
use codex_logic::hooks::types::{
    HookEvent, HookEventKey, HookPermissionDecision, HookResult, HookResultControl,
};
use codex_logic::json::JsonValue;

fn s(x: &str) -> String {
    x.to_string()
}

fn obj(members: Vec<(&str, JsonValue)>) -> JsonValue {
    JsonValue::Object(members.into_iter().map(|(k, v)| (k.to_string(), v)).collect())
}

fn text(x: &str) -> JsonValue {
    JsonValue::Str(x.to_string())
}

fn parse_stdout_json(stdout: &[u8]) -> Option<serde_json::Value> {
    stdout_json_candidates(stdout)
        .into_iter()
        .find_map(|c| serde_json::from_str::<serde_json::Value>(&c).ok())
}

fn expect_plain_success(r: &HookResult) {
    assert!(matches!(r.control, HookResultControl::Continue));
    assert!(r.permission_decision.is_none());
    assert!(r.permission_decision_reason.is_none());
    assert!(r.updated_input.is_none());
    assert!(r.additional_context.is_empty());
    assert!(r.error.is_none());
}

#[test]
fn parse_stdout_json_returns_none_for_empty_output() {
    assert_eq!(parse_stdout_json(b""), None);
    assert_eq!(parse_stdout_json(b"\n \t\n"), None);
}

#[test]
fn parse_stdout_json_skips_blank_lines_before_json() {
    let value = parse_stdout_json(b"\n\n   \n{\"a\":2}\n").expect("json");
    assert_eq!(value, serde_json::from_str::<serde_json::Value>("{\"a\": 2}").unwrap());
}

#[test]
fn parse_stdout_json_accepts_full_json_output() {
    let value = parse_stdout_json(br#"{"a":1}"#).expect("json");
    assert_eq!(value, serde_json::from_str::<serde_json::Value>("{\"a\": 1}").unwrap());
}

#[test]
fn parse_stdout_json_accepts_first_parseable_json_line() {
    let value = parse_stdout_json(b"not json\n{\"a\":1}\n{\"b\":2}\n").expect("json");
    assert_eq!(value, serde_json::from_str::<serde_json::Value>("{\"a\": 1}").unwrap());
}

#[test]
fn apply_stdout_json_collects_context_and_updated_input() {
    let result = apply_stdout_json(
        HookEventKey::PreToolUse,
        obj(vec![
            ("systemMessage", text(" sys ")),
            ("additionalContext", text(" ctx ")),
            (
                "hookSpecificOutput",
                obj(vec![
                    ("additionalContext", text(" hook ")),
                    ("updatedInput", obj(vec![("x", JsonValue::Number(s("1")))])),
                    ("permissionDecision", text("deny")),
                    ("permissionDecisionReason", text(" nope ")),
                ]),
            ),
        ]),
    );

    assert_eq!(
        result.additional_context,
        vec!["sys".to_string(), "ctx".to_string(), "hook".to_string()]
    );
    match &result.updated_input {
        Some(JsonValue::Object(m)) => {
            assert_eq!(m.len(), 1);
            assert_eq!(m[0].0, "x");
            assert!(matches!(&m[0].1, JsonValue::Number(n) if n == "1"));
        }
        other => panic!("unexpected updated input {other:?}"),
    }
    assert_eq!(
        result.permission_decision,
        Some(HookPermissionDecision::Deny)
    );
    assert!(matches!(
        result.control,
        HookResultControl::Block { ref reason } if reason == "nope"
    ));
}

#[test]
fn apply_stdout_json_parses_permission_request_behavior() {
    let result = apply_stdout_json(
        HookEventKey::PermissionRequest,
        obj(vec![(
            "hookSpecificOutput",
            obj(vec![
                ("decision", obj(vec![("behavior", text("allow"))])),
                ("permissionDecisionReason", text(" ok ")),
            ]),
        )]),
    );

    assert_eq!(
        result.permission_decision,
        Some(HookPermissionDecision::Allow)
    );
    assert_eq!(result.permission_decision_reason, Some("ok".to_string()));
    assert!(matches!(result.control, HookResultControl::Continue));
}

#[test]
fn apply_stdout_json_blocks_on_decision_with_reason() {
    let result = apply_stdout_json(
        HookEventKey::UserPromptSubmit,
        obj(vec![("decision", text("block")), ("reason", text("no"))]),
    );

    assert!(matches!(
        result.control,
        HookResultControl::Block { ref reason } if reason == "no"
    ));
}

#[test]
fn apply_stdout_json_ignores_decisions_for_post_tool_use() {
    let result = apply_stdout_json(
        HookEventKey::PostToolUse,
        obj(vec![("decision", text("block")), ("reason", text("no"))]),
    );

    assert!(matches!(result.control, HookResultControl::Continue));
}

#[test]
fn apply_stdout_json_non_object_is_ignored() {
    let result = apply_stdout_json(
        HookEventKey::PreToolUse,
        JsonValue::Array(vec![text("not"), text("an"), text("object")]),
    );
    expect_plain_success(&result);
}

#[test]
fn apply_stdout_json_pre_tool_use_ask_blocks_with_reason() {
    let result = apply_stdout_json(
        HookEventKey::PreToolUse,
        obj(vec![("decision", text("ask")), ("stopReason", text("need approval"))]),
    );

    assert!(matches!(
        result.control,
        HookResultControl::Block { ref reason } if reason == "need approval"
    ));
}

#[test]
fn apply_stdout_json_permission_request_accepts_top_level_decision() {
    let result = apply_stdout_json(
        HookEventKey::PermissionRequest,
        obj(vec![
            ("decision", text("ask")),
            ("permissionDecisionReason", text("check with user")),
        ]),
    );

    assert_eq!(
        result.permission_decision,
        Some(HookPermissionDecision::Ask)
    );
    assert_eq!(
        result.permission_decision_reason,
        Some("check with user".to_string())
    );
    assert!(matches!(result.control, HookResultControl::Continue));
}

#[test]
fn apply_stdout_json_user_prompt_submit_does_not_block_on_ask() {
    let result = apply_stdout_json(
        HookEventKey::UserPromptSubmit,
        obj(vec![("decision", text("ask")), ("reason", text("not used"))]),
    );

    assert!(matches!(result.control, HookResultControl::Continue));
}

#[test]
fn decisions_parse_case_insensitively_after_trimming() {
    assert_eq!(parse_permission_decision(" ALLOW "), Some(HookPermissionDecision::Allow));
    assert_eq!(parse_permission_decision("block"), Some(HookPermissionDecision::Deny));
    assert_eq!(parse_permission_decision("ask"), Some(HookPermissionDecision::Ask));
    assert_eq!(parse_permission_decision("maybe"), None);
    assert!(matches!(parse_decision("Deny"), Some(ParsedDecision::Deny)));
    assert!(matches!(parse_decision("approve"), Some(ParsedDecision::Allow)));
    assert!(parse_decision("").is_none());
}

#[test]
fn preview_truncates_long_output_with_ellipsis() {
    assert_eq!(preview_bytes(b"  short  "), "short");
    let long = "x".repeat(301);
    let preview = preview_bytes(long.as_bytes());
    assert_eq!(preview.chars().count(), 301);
    assert!(preview.ends_with('…'));
    assert_eq!(preview_bytes(&vec![b'y'; 300]), "y".repeat(300));
}

#[test]
fn exit_two_blocks_only_blockable_events() {
    let blocked = result_from_output(HookEventKey::PreToolUse, Some(2), "exit status: 2", b" stop ", None);
    assert!(matches!(blocked.control, HookResultControl::Block { ref reason } if reason == "stop"));
    let stock = result_from_output(HookEventKey::Stop, Some(2), "exit status: 2", b"", None);
    assert!(matches!(stock.control, HookResultControl::Block { ref reason } if reason == "hook blocked operation"));
    let not_blocked = result_from_output(HookEventKey::PostToolUse, Some(2), "exit status: 2", b"oops", None);
    assert!(matches!(not_blocked.control, HookResultControl::Continue));
    let signal = result_from_output(HookEventKey::PreToolUse, None, "signal: 9", b"", None);
    assert_eq!(signal.error.as_deref(), Some("hook command terminated by signal"));
    let ok = result_from_output(HookEventKey::PreToolUse, Some(0), "exit status: 0", b"", None);
    expect_plain_success(&ok);
}

#[test]
fn prompt_arguments_are_substituted_or_appended() {
    assert_eq!(render_prompt_with_arguments("check $ARGUMENTS now", "{}"), "check {} now");
    assert_eq!(render_prompt_with_arguments("check", "{\"a\":1}"), "check\n\n$ARGUMENTS:\n{\"a\":1}");
}

#[test]
fn verdicts_become_results() {
    expect_plain_success(&decision_to_result(true, Some("ignored".to_string())));
    let r = decision_to_result(false, Some("  ".to_string()));
    assert!(matches!(r.control, HookResultControl::Block { ref reason } if reason == "hook blocked operation"));
    let r = decision_to_result(false, Some("bad".to_string()));
    assert!(matches!(r.control, HookResultControl::Block { ref reason } if reason == "bad"));
}

#[test]
fn event_matcher_accessors_cover_variants() {
    assert_eq!(
        HookEvent::SessionStart {
            source: "cli".to_string(),
            model: "gpt-5".to_string(),
            agent_type: None
        }
        .tool_name_for_matcher(),
        None
    );
    assert_eq!(
        HookEvent::UserPromptSubmit {
            prompt: "ship it".to_string()
        }
        .user_prompt_for_matcher(),
        Some("ship it")
    );
    assert_eq!(
        HookEvent::PreToolUse {
            tool_name: "shell".to_string(),
            tool_input: obj(vec![("command", JsonValue::Array(vec![text("echo"), text("hi")]))]),
            tool_use_id: "call-1".to_string(),
        }
        .tool_name_for_matcher(),
        Some("shell")
    );
    assert_eq!(
        HookEvent::PermissionRequest {
            tool_name: "exec_command".to_string(),
            tool_input: obj(vec![("cmd", text("pwd"))]),
            tool_use_id: "call-2".to_string(),
            permission_suggestions: None,
        }
        .tool_name_for_matcher(),
        Some("exec_command")
    );
    assert_eq!(
        HookEvent::PostToolUse {
            tool_name: "parallel".to_string(),
            tool_input: obj(vec![("tool_uses", JsonValue::Array(vec![]))]),
            tool_response: obj(vec![("ok", JsonValue::Bool(true))]),
            tool_use_id: "call-3".to_string(),
        }
        .tool_name_for_matcher(),
        Some("parallel")
    );
    assert_eq!(
        HookEvent::PostToolUseFailure {
            tool_name: "spawn_team".to_string(),
            tool_input: obj(vec![("members", JsonValue::Array(vec![]))]),
            tool_use_id: "call-4".to_string(),
            error: "boom".to_string(),
            is_interrupt: Some(false),
        }
        .tool_name_for_matcher(),
        Some("spawn_team")
    );
    assert_eq!(
        HookEvent::SessionEnd {
            reason: "done".to_string()
        }
        .user_prompt_for_matcher(),
        None
    );
    assert_eq!(
        HookEvent::WorktreeCreate {
            repo_path: "/repo".to_string(),
            worktree_path: "/repo-wt".to_string(),
        }
        .tool_name_for_matcher(),
        None
    );
    assert_eq!(
        HookEvent::WorktreeRemove {
            repo_path: "/repo".to_string(),
            worktree_path: "/repo-wt".to_string(),
        }
        .user_prompt_for_matcher(),
        None
    );
}

#[test]
fn event_keys_name_and_classify_events() {
    assert_eq!(HookEventKey::PreToolUse.as_str(), "pre_tool_use");
    assert!(HookEventKey::PreToolUse.supports_matchers());
    assert!(!HookEventKey::UserPromptSubmit.supports_matchers());
    assert!(HookEventKey::TeammateIdle.supports_exit_2_block());
    assert!(!HookEventKey::PostToolUse.supports_exit_2_block());
    assert!(!HookEventKey::WorktreeCreate.supports_exit_2_block());
    let success = HookResult::success();
    expect_plain_success(&success);
}

#[test]
fn preview_bytes_replaces_invalid_utf8() {
    assert_eq!(preview_bytes(&[b'a', 0xff, b'b']), "a\u{FFFD}b");
}
