use codex_logic::hooks::config::{
    CommandHookConfig, CommandHooksConfig, HookHandlerType, HookMatcherConfig, HooksConfig,
};
use codex_logic::hooks::registry::{
    background_result, finish_dispatch, hook_from_config, hook_handler_identity, work_for,
    CompiledMatcher, HookHandler, HookWork, Hooks, PlannedHook,
};
use codex_logic::hooks::toml_config::{
    command_argv, command_hooks_from_layers, shell_command_argv, HookCommandToml, HookEntryToml,
    HookMatcherToml, HooksToml,
};
use codex_logic::hooks::types::{HookEvent, HookEventKey, HookResult, HookResultControl};
use codex_logic::json::JsonValue;

fn cmd(words: &[&str]) -> Vec<String> {
    words.iter().map(|w| w.to_string()).collect()
}

fn command_hook(words: &[&str]) -> CommandHookConfig {
    CommandHookConfig {
        command: cmd(words),
        ..Default::default()
    }
}

fn pre_tool_use(tool: &str) -> HookEvent {
    HookEvent::PreToolUse {
        tool_name: tool.to_string(),
        tool_input: JsonValue::Object(vec![]),
        tool_use_id: "call-1".to_string(),
    }
}

fn run_names(planned: &[PlannedHook]) -> Vec<String> {
    planned
        .iter()
        .map(|p| match p {
            PlannedHook::Run { hook_name, .. } => format!("run:{hook_name}"),
            PlannedHook::Failed { hook_name, error } => format!("failed:{hook_name}:{error}"),
        })
        .collect()
}

#[test]
fn dispatch_plan_deduplicates_identical_hooks() {
    let mut hooks = Hooks::new(HooksConfig {
        command_hooks: CommandHooksConfig {
            stop: vec![command_hook(&["echo", "hi"]), command_hook(&["echo", "hi"])],
            ..Default::default()
        },
    });
    let planned = hooks.plan_dispatch(&HookEvent::Stop {
        stop_hook_active: false,
        last_assistant_message: None,
    });
    assert_eq!(run_names(&planned), vec!["run:stop-1".to_string()]);
}

#[test]
fn dispatch_plan_runs_once_hooks_once_per_session() {
    let mut hooks = Hooks::new(HooksConfig {
        command_hooks: CommandHooksConfig {
            pre_tool_use: vec![CommandHookConfig {
                once: true,
                ..command_hook(&["echo", "once"])
            }],
            ..Default::default()
        },
    });
    assert_eq!(run_names(&hooks.plan_dispatch(&pre_tool_use("shell"))).len(), 1);
    assert!(hooks.plan_dispatch(&pre_tool_use("shell")).is_empty());
}

#[test]
fn dispatch_plan_keeps_once_hooks_of_different_events_apart() {
    let mut hooks = Hooks::new(HooksConfig {
        command_hooks: CommandHooksConfig {
            pre_tool_use: vec![CommandHookConfig {
                once: true,
                name: Some("same".to_string()),
                ..command_hook(&["echo", "x"])
            }],
            post_tool_use: vec![CommandHookConfig {
                once: true,
                name: Some("same".to_string()),
                ..command_hook(&["echo", "x"])
            }],
            ..Default::default()
        },
    });
    assert_eq!(run_names(&hooks.plan_dispatch(&pre_tool_use("shell"))), vec!["run:same".to_string()]);
    let post = HookEvent::PostToolUse {
        tool_name: "shell".to_string(),
        tool_input: JsonValue::Null,
        tool_response: JsonValue::Null,
        tool_use_id: "call-2".to_string(),
    };
    assert_eq!(run_names(&hooks.plan_dispatch(&post)), vec!["run:same".to_string()]);
}

#[test]
fn dispatch_plan_does_not_consume_once_hooks_that_do_not_match() {
    let mut hooks = Hooks::new(HooksConfig {
        command_hooks: CommandHooksConfig {
            pre_tool_use: vec![CommandHookConfig {
                once: true,
                matcher: HookMatcherConfig {
                    tool_name: Some("apply_patch".to_string()),
                    ..Default::default()
                },
                ..command_hook(&["echo", "x"])
            }],
            ..Default::default()
        },
    });
    assert!(hooks.plan_dispatch(&pre_tool_use("shell")).is_empty());
    assert_eq!(hooks.plan_dispatch(&pre_tool_use("apply_patch")).len(), 1);
    assert!(hooks.plan_dispatch(&pre_tool_use("apply_patch")).is_empty());
}

#[test]
fn scoped_hooks_join_and_leave_the_plan() {
    let mut hooks = Hooks::new(HooksConfig::default());
    hooks.insert_scoped_command_hooks(
        "scope-1".to_string(),
        CommandHooksConfig {
            pre_tool_use: vec![command_hook(&["echo", "scoped"])],
            ..Default::default()
        },
    );
    assert_eq!(
        run_names(&hooks.plan_dispatch(&pre_tool_use("shell"))),
        vec!["run:scope-1:pre_tool_use-1".to_string()]
    );
    hooks.remove_scoped_hooks("scope-1");
    assert!(hooks.plan_dispatch(&pre_tool_use("shell")).is_empty());
}

#[test]
fn scoped_hooks_are_deduplicated_and_ordered_by_scope() {
    let mut hooks = Hooks::new(HooksConfig::default());
    for scope in ["scope-b", "scope-a"] {
        hooks.insert_scoped_command_hooks(
            scope.to_string(),
            CommandHooksConfig {
                stop: vec![command_hook(&["echo", "same"])],
                ..Default::default()
            },
        );
    }
    let planned = hooks.plan_dispatch(&HookEvent::Stop {
        stop_hook_active: false,
        last_assistant_message: None,
    });
    assert_eq!(run_names(&planned), vec!["run:scope-a:stop-1".to_string()]);
}

#[test]
fn invalid_regex_is_reported_when_dispatched() {
    let mut hooks = Hooks::new(HooksConfig {
        command_hooks: CommandHooksConfig {
            pre_tool_use: vec![CommandHookConfig {
                name: Some("bad".to_string()),
                matcher: HookMatcherConfig {
                    tool_name_regex: Some("(".to_string()),
                    ..Default::default()
                },
                ..command_hook(&["echo", "x"])
            }],
            ..Default::default()
        },
    });
    let planned = hooks.plan_dispatch(&pre_tool_use("shell"));
    assert_eq!(planned.len(), 1);
    match &planned[0] {
        PlannedHook::Failed { hook_name, error } => {
            assert_eq!(hook_name, "bad");
            assert!(error.starts_with("invalid tool_name_regex: "));
        }
        other => panic!("unexpected {other:?}"),
    }
}

#[test]
fn matchers_filter_by_tool_and_prompt_events_ignore_them() {
    let matcher = CompiledMatcher::compile(&HookMatcherConfig {
        tool_name_regex: Some("^sh".to_string()),
        ..Default::default()
    })
    .expect("compiles");
    assert!(matcher.matches(&pre_tool_use("shell")));
    assert!(!matcher.matches(&pre_tool_use("apply_patch")));
    assert!(!matcher.matches(&HookEvent::UserPromptSubmit {
        prompt: "shell".to_string()
    }));
    let star = CompiledMatcher::compile(&HookMatcherConfig {
        matcher: Some(" * ".to_string()),
        ..Default::default()
    })
    .expect("compiles");
    assert!(star.matcher_regex.is_none());

    let mut hooks = Hooks::new(HooksConfig {
        command_hooks: CommandHooksConfig {
            user_prompt_submit: vec![CommandHookConfig {
                matcher: HookMatcherConfig {
                    tool_name: Some("nothing".to_string()),
                    ..Default::default()
                },
                ..command_hook(&["echo", "x"])
            }],
            ..Default::default()
        },
    });
    let planned = hooks.plan_dispatch(&HookEvent::UserPromptSubmit {
        prompt: "hi".to_string(),
    });
    assert_eq!(planned.len(), 1);
}

#[test]
fn hooks_with_nothing_to_run_are_dropped() {
    let blank = command_hook(&["  ", "x"]);
    assert!(hook_from_config(&blank, HookEventKey::Stop, 0, None).is_none());
    let empty = command_hook(&[]);
    assert!(hook_from_config(&empty, HookEventKey::Stop, 0, None).is_none());
    let prompt = CommandHookConfig {
        handler_type: HookHandlerType::Prompt,
        prompt: Some("  ".to_string()),
        ..Default::default()
    };
    assert!(hook_from_config(&prompt, HookEventKey::Stop, 0, None).is_none());
}

#[test]
fn prompt_hooks_on_unsupported_events_report_an_error() {
    let prompt = CommandHookConfig {
        handler_type: HookHandlerType::Prompt,
        prompt: Some(" check ".to_string()),
        ..Default::default()
    };
    let hook = hook_from_config(&prompt, HookEventKey::SessionStart, 2, Some("s")).expect("hook");
    assert_eq!(hook.name, "s:session_start-3");
    assert_eq!(
        hook.config_error.as_deref(),
        Some("prompt hooks are not supported for session_start")
    );
}

#[test]
fn handler_identity_names_what_a_hook_does() {
    let id = hook_handler_identity(
        HookEventKey::Stop,
        &HookHandler::Command { argv: cmd(&["echo", "hi"]), async_: false },
        Some(5),
        true,
    );
    assert_eq!(id, "stop|command|async=false|timeout=5|once=true|argv=[\"echo\",\"hi\"]");
    let id = hook_handler_identity(
        HookEventKey::PreToolUse,
        &HookHandler::Prompt { prompt: "p".to_string(), model: None },
        None,
        false,
    );
    assert_eq!(id, "pre_tool_use|prompt|timeout=none|once=false|model=null|prompt=\"p\"");
}

#[test]
fn work_and_responses_follow_the_plan() {
    let w = work_for(HookHandler::Command { argv: cmd(&["a"]), async_: true }, None, false, false);
    assert!(matches!(w, HookWork::Done(ref r) if r.error.is_none()));
    let w = work_for(HookHandler::Command { argv: cmd(&["a"]), async_: true }, Some(3), true, false);
    assert!(matches!(w, HookWork::Background { timeout: Some(3), .. }));
    let w = work_for(HookHandler::Agent { prompt: "p".to_string(), model: None }, None, false, false);
    assert!(matches!(w, HookWork::Done(ref r) if r.error.as_deref() == Some("agent hooks are not configured")));

    let planned = vec![
        PlannedHook::Failed { hook_name: "f".to_string(), error: "bad".to_string() },
        PlannedHook::Run {
            hook_name: "r1".to_string(),
            handler: HookHandler::Command { argv: cmd(&["a"]), async_: false },
            timeout: None,
        },
        PlannedHook::Run {
            hook_name: "r2".to_string(),
            handler: HookHandler::Command { argv: cmd(&["b"]), async_: false },
            timeout: None,
        },
    ];
    let mut blocked = HookResult::success();
    blocked.control = HookResultControl::Block { reason: "no".to_string() };
    let responses = finish_dispatch(&planned, vec![None, Some(blocked), None]);
    assert_eq!(responses.len(), 3);
    assert_eq!(responses[0].hook_name, "f");
    assert_eq!(responses[0].result.error.as_deref(), Some("bad"));
    assert!(matches!(responses[1].result.control, HookResultControl::Block { .. }));
    assert_eq!(responses[2].result.error.as_deref(), Some("hook task failed"));

    let mut r = HookResult::success();
    r.control = HookResultControl::Block { reason: "late".to_string() };
    r.additional_context = vec!["ctx".to_string()];
    let bg = background_result(r);
    assert!(matches!(bg.control, HookResultControl::Continue));
    assert_eq!(bg.additional_context, vec!["ctx".to_string()]);
}

#[test]
fn command_hooks_append_across_layers() {
    let user = HooksToml {
        pre_tool_use: vec![HookEntryToml {
            name: None,
            command: HookCommandToml::Argv(cmd(&["echo", "u-pre"])),
            async_: false,
            timeout: None,
            status_message: None,
            once: false,
            matcher: HookMatcherToml {
                tool_name_regex: Some("^shell$".to_string()),
                ..Default::default()
            },
        }],
        stop: vec![HookEntryToml {
            name: None,
            command: HookCommandToml::Argv(cmd(&["echo", "u-stop"])),
            async_: false,
            timeout: None,
            status_message: None,
            once: false,
            matcher: HookMatcherToml::default(),
        }],
        ..Default::default()
    };
    let project = HooksToml {
        stop: vec![HookEntryToml {
            name: None,
            command: HookCommandToml::Shell("echo p-stop".to_string()),
            async_: false,
            timeout: None,
            status_message: None,
            once: false,
            matcher: HookMatcherToml::default(),
        }],
        ..Default::default()
    };
    let hooks = command_hooks_from_layers(&vec![Some(user), None, Some(project)]);
    assert_eq!(hooks.pre_tool_use.len(), 1);
    assert_eq!(
        hooks.pre_tool_use[0].matcher.tool_name_regex.as_deref(),
        Some("^shell$")
    );
    assert_eq!(hooks.stop.len(), 2);
    assert_eq!(
        hooks.stop[0].command,
        vec!["echo".to_string(), "u-stop".to_string()]
    );
    assert_eq!(
        hooks.stop[1].command,
        vec![
            "sh".to_string(),
            "-c".to_string(),
            "echo p-stop".to_string()
        ]
    );
}

#[test]
fn shell_commands_are_trimmed_and_blank_ones_dropped() {
    assert_eq!(command_argv(&HookCommandToml::Shell("  ls -la ".to_string())), cmd(&["sh", "-c", "ls -la"]));
    assert!(command_argv(&HookCommandToml::Shell("   ".to_string())).is_empty());
    assert_eq!(shell_command_argv("x"), cmd(&["sh", "-c", "x"]));
}

#[test]
fn handler_identity_escapes_as_json() {
    let id = hook_handler_identity(
        HookEventKey::Stop,
        &HookHandler::Command { argv: cmd(&["say \"hi\"", "a\\b", "t\tn\nc\u{1}", "é"]), async_: false },
        None,
        false,
    );
    assert_eq!(
        id,
        "stop|command|async=false|timeout=none|once=false|argv=[\"say \\\"hi\\\"\",\"a\\\\b\",\"t\\tn\\nc\\u0001\",\"é\"]"
    );
    let id = hook_handler_identity(
        HookEventKey::Stop,
        &HookHandler::Command { argv: cmd(&[]), async_: false },
        None,
        false,
    );
    assert!(id.ends_with("argv=[]"));
}
