use codex_logic::hooks::executor::{
    agent_hook_step, last_assistant_message, prompt_hook_verdict, prompt_stream_step,
    AgentHookAction, AgentHookEvent, PromptStreamEvent, PromptStreamStep, RolloutContent,
    RolloutRecord,
};
use codex_logic::hooks::types::HookResultControl;
use codex_logic::teams::AgentStatus;

fn error_of(action: AgentHookAction) -> (bool, Option<String>) {
    match action {
        AgentHookAction::Finish { shut_down, result } => (shut_down, result.error),
        other => panic!("expected a finish, got {other:?}"),
    }
}

#[test]
fn agent_hook_walks_through_spawn_wait_lookup_and_read() {
    assert!(matches!(
        agent_hook_step(AgentHookEvent::Spawned(Ok("agent-1".to_string()))),
        AgentHookAction::WaitForFinalStatus
    ));
    assert!(matches!(
        agent_hook_step(AgentHookEvent::Settled(Some(AgentStatus::Completed(None)))),
        AgentHookAction::FindRollout
    ));
    match agent_hook_step(AgentHookEvent::RolloutFound(Ok(Some("/tmp/r.jsonl".to_string())))) {
        AgentHookAction::ReadRollout(path) => assert_eq!(path, "/tmp/r.jsonl"),
        other => panic!("unexpected {other:?}"),
    }
    match agent_hook_step(AgentHookEvent::RolloutRead(Ok(Some("  {\"ok\": true}\n".to_string())))) {
        AgentHookAction::ShutDownAndParse(text) => assert_eq!(text, "{\"ok\": true}"),
        other => panic!("unexpected {other:?}"),
    }
    match agent_hook_step(AgentHookEvent::RolloutRead(Ok(None))) {
        AgentHookAction::ShutDownAndParse(text) => assert_eq!(text, ""),
        other => panic!("unexpected {other:?}"),
    }
}

#[test]
fn agent_hook_failures_report_and_shut_down() {
    assert_eq!(
        error_of(agent_hook_step(AgentHookEvent::Spawned(Err("no slots".to_string())))),
        (false, Some("agent hook failed to spawn: no slots".to_string()))
    );
    assert_eq!(
        error_of(agent_hook_step(AgentHookEvent::Settled(None))),
        (true, Some("agent hook timed out".to_string()))
    );
    assert_eq!(
        error_of(agent_hook_step(AgentHookEvent::Settled(Some(AgentStatus::Running)))),
        (true, Some("agent hook ended unexpectedly".to_string()))
    );
    assert_eq!(
        error_of(agent_hook_step(AgentHookEvent::RolloutFound(Ok(None)))),
        (true, Some("agent hook rollout not found".to_string()))
    );
    assert_eq!(
        error_of(agent_hook_step(AgentHookEvent::RolloutFound(Err("denied".to_string())))),
        (true, Some("agent hook rollout lookup failed: denied".to_string()))
    );
    assert_eq!(
        error_of(agent_hook_step(AgentHookEvent::RolloutRead(Err("eof".to_string())))),
        (true, Some("agent hook rollout read failed: eof".to_string()))
    );
    assert_eq!(
        error_of(agent_hook_step(AgentHookEvent::VerdictParsed(Err("expected value".to_string())))),
        (false, Some("agent hook returned invalid JSON: expected value".to_string()))
    );
}

#[test]
fn agent_hook_verdicts_give_results() {
    match agent_hook_step(AgentHookEvent::VerdictParsed(Ok((false, Some("  ".to_string()))))) {
        AgentHookAction::Finish { shut_down, result } => {
            assert!(!shut_down);
            assert_eq!(
                result.control,
                HookResultControl::Block { reason: "hook blocked operation".to_string() }
            );
            assert_eq!(result.error, None);
        }
        other => panic!("unexpected {other:?}"),
    }
    match agent_hook_step(AgentHookEvent::VerdictParsed(Ok((true, Some("fine".to_string()))))) {
        AgentHookAction::Finish { shut_down, result } => {
            assert!(!shut_down);
            assert_eq!(result.control, HookResultControl::Continue);
            assert_eq!(result.error, None);
        }
        other => panic!("unexpected {other:?}"),
    }
}

#[test]
fn prompt_stream_collects_text_until_completed() {
    let mut text = String::new();
    assert!(matches!(
        prompt_stream_step(&mut text, PromptStreamEvent::OutputTextDelta("{\"ok\": ".to_string())),
        PromptStreamStep::Continue
    ));
    assert!(matches!(prompt_stream_step(&mut text, PromptStreamEvent::Other), PromptStreamStep::Continue));
    assert!(matches!(
        prompt_stream_step(&mut text, PromptStreamEvent::OutputTextDelta("false}".to_string())),
        PromptStreamStep::Continue
    ));
    assert!(matches!(prompt_stream_step(&mut text, PromptStreamEvent::Completed), PromptStreamStep::Finished));
    assert_eq!(text, "{\"ok\": false}");
    match prompt_stream_step(&mut text, PromptStreamEvent::Failed("reset".to_string())) {
        PromptStreamStep::Failed(r) => assert_eq!(r.error.as_deref(), Some("prompt hook stream error: reset")),
        other => panic!("unexpected {other:?}"),
    }
    assert_eq!(text, "{\"ok\": false}");
}

#[test]
fn prompt_hook_verdicts() {
    let r = prompt_hook_verdict(Ok((false, Some("not allowed".to_string()))));
    assert_eq!(r.control, HookResultControl::Block { reason: "not allowed".to_string() });
    let r = prompt_hook_verdict(Err("trailing characters".to_string()));
    assert_eq!(r.error.as_deref(), Some("prompt hook returned invalid JSON: trailing characters"));
    assert_eq!(r.control, HookResultControl::Continue);
}

#[test]
fn last_assistant_message_prefers_latest_non_blank_text() {
    let records = vec![
        RolloutRecord::Message {
            role: "assistant".to_string(),
            content: vec![
                RolloutContent::OutputText("first".to_string()),
                RolloutContent::InputImage,
                RolloutContent::OutputText("second".to_string()),
            ],
        },
        RolloutRecord::Message { role: "user".to_string(), content: vec![RolloutContent::InputText("hi".to_string())] },
        RolloutRecord::Message { role: "assistant".to_string(), content: vec![RolloutContent::OutputText("   ".to_string())] },
        RolloutRecord::Other,
    ];
    assert_eq!(last_assistant_message(&records), Some("first\nsecond".to_string()));

    let mut with_compaction = records;
    with_compaction.push(RolloutRecord::Compacted { message: "summary".to_string() });
    assert_eq!(last_assistant_message(&with_compaction), Some("summary".to_string()));

    assert_eq!(last_assistant_message(&Vec::new()), None);
    let leading_empty = vec![RolloutRecord::Message {
        role: "assistant".to_string(),
        content: vec![RolloutContent::OutputText(String::new()), RolloutContent::OutputText("x".to_string())],
    }];
    assert_eq!(last_assistant_message(&leading_empty), Some("x".to_string()));
}
