use codex_logic::collab::{
    approval_policy_for_hooks, collab_tool, git_error_text, input_preview, member_call_id,
    normalize_wait_timeout, normalized_team_id, optional_non_empty, parse_collab_input,
    prefixed_team_call_id, required_non_empty, team_persistence_error, AskForApproval, CollabTool,
    FunctionCallError, UserInput, TEAM_SPAWN_CALL_PREFIX,
};
use codex_logic::inbox::{
    ack_entry_line, ack_inbox, check_ack_token, inbox_error, new_inbox_entry, pop_inbox_entries,
    pop_limit, pop_window, TeamInboxAckToken, TeamInboxCursor, TeamInboxEntry, TeamInboxMessage,
};
use codex_logic::tasks::{
    build_initial_team_tasks, claim_task, complete_task, dependencies_satisfied, select_next_task,
    tasks_of_members, PersistedTaskState, PersistedTeamTask, PersistedTeamTaskAssignee,
};
use codex_logic::teams::{
    close_event_status, close_member_outcome, find_team_member, needs_shutdown,
    persisted_team_config, select_close_members, spawn_team_id, team_member_names,
    triggered_member, validate_spawn_team_members, wait_for_agents_result, wait_needed,
    wait_team_completed, AgentStatus, SpawnTeamMemberArgs, TeamMember, TeamRecord, TeamRegistry,
    WaitMode,
};

fn respond(m: &str) -> FunctionCallError {
    FunctionCallError::RespondToModel(m.to_string())
}

fn member(name: &str, agent: &str, agent_type: Option<&str>) -> TeamMember {
    TeamMember {
        name: name.to_string(),
        agent_id: agent.to_string(),
        agent_type: agent_type.map(|s| s.to_string()),
    }
}

fn team() -> TeamRecord {
    TeamRecord {
        members: vec![
            member("planner", "agent-1", Some("explorer")),
            member("worker", "agent-2", Some("  ")),
            member("checker", "agent-3", None),
        ],
        created_at: 100,
    }
}

#[test]
fn team_member_names_formats_agent_type() {
    let names = team_member_names(&team().members);
    assert_eq!(
        names,
        vec![
            ("agent-1".to_string(), "planner [explorer]".to_string()),
            ("agent-2".to_string(), "worker [default]".to_string()),
            ("agent-3".to_string(), "checker [default]".to_string()),
        ]
    );
}

#[test]
fn collab_input_takes_exactly_one_source() {
    assert_eq!(
        parse_collab_input(Some("hi".to_string()), Some(vec![])).unwrap_err(),
        respond("Provide either message or items, but not both")
    );
    assert_eq!(
        parse_collab_input(None, None).unwrap_err(),
        respond("Provide one of: message or items")
    );
    assert_eq!(
        parse_collab_input(Some("  ".to_string()), None).unwrap_err(),
        respond("Empty message can't be sent to an agent")
    );
    assert_eq!(
        parse_collab_input(None, Some(vec![])).unwrap_err(),
        respond("Items can't be empty")
    );
    assert_eq!(
        parse_collab_input(Some(" go ".to_string()), None).unwrap(),
        vec![UserInput::Text { text: " go ".to_string() }]
    );
}

#[test]
fn input_preview_lists_each_item() {
    let items = vec![
        UserInput::Text { text: "do it".to_string() },
        UserInput::Image { image_url: "data:".to_string() },
        UserInput::LocalImage { path: "/tmp/a.png".to_string() },
        UserInput::Skill { name: "lint".to_string(), path: "/s/lint".to_string() },
        UserInput::Mention { name: "doc".to_string(), path: "app://doc".to_string() },
    ];
    assert_eq!(
        input_preview(&items),
        "do it\n[image]\n[local_image:/tmp/a.png]\n[skill:$lint](/s/lint)\n[mention:$doc](app://doc)"
    );
    assert_eq!(input_preview(&vec![]), "");
}

#[test]
fn wait_timeouts_are_clamped_and_must_be_positive() {
    assert_eq!(normalize_wait_timeout(None).unwrap(), 30_000);
    assert_eq!(normalize_wait_timeout(Some(1)).unwrap(), 10_000);
    assert_eq!(normalize_wait_timeout(Some(1_000_000)).unwrap(), 300_000);
    assert_eq!(normalize_wait_timeout(Some(45_000)).unwrap(), 45_000);
    assert_eq!(
        normalize_wait_timeout(Some(0)).unwrap_err(),
        respond("timeout_ms must be greater than zero")
    );
    assert!(normalize_wait_timeout(Some(-5)).is_err());
}

#[test]
fn identifiers_and_arguments_are_trimmed() {
    assert_eq!(normalized_team_id("  t1 ").unwrap(), "t1");
    assert_eq!(normalized_team_id(" ").unwrap_err(), respond("team_id must be non-empty"));
    assert_eq!(required_non_empty(" x ", "task_id").unwrap(), "x");
    assert_eq!(required_non_empty("", "task_id").unwrap_err(), respond("task_id must be non-empty"));
    assert_eq!(optional_non_empty(&None, "model").unwrap(), None);
    assert_eq!(optional_non_empty(&Some(" m ".to_string()), "model").unwrap(), Some("m".to_string()));
    assert_eq!(
        optional_non_empty(&Some(" ".to_string()), "model").unwrap_err(),
        respond("model must be non-empty when provided")
    );
    assert_eq!(prefixed_team_call_id(TEAM_SPAWN_CALL_PREFIX, "c1"), "team/spawn:c1");
    assert_eq!(member_call_id("c1", "worker"), "c1:worker");
    assert_eq!(
        team_persistence_error("write team config", "t1", "disk full"),
        respond("failed to write team config for team `t1`: disk full")
    );
    assert_eq!(approval_policy_for_hooks(AskForApproval::OnFailure), "on-failure");
    assert_eq!(approval_policy_for_hooks(AskForApproval::UnlessTrusted), "untrusted");
    assert_eq!(git_error_text(" fatal ", "out", "exit status: 1"), "fatal");
    assert_eq!(git_error_text("", " out ", "exit status: 1"), "out");
    assert_eq!(git_error_text("", "", "exit status: 1"), "git exited with status exit status: 1");
}

#[test]
fn collab_tools_are_routed_by_name() {
    assert_eq!(collab_tool("spawn_team", true).unwrap(), CollabTool::SpawnTeam);
    assert_eq!(collab_tool("wait", true).unwrap(), CollabTool::Wait);
    assert_eq!(collab_tool("nope", true).unwrap_err(), respond("unsupported collab tool nope"));
    assert_eq!(
        collab_tool("wait", false).unwrap_err(),
        respond("collab handler received unsupported payload")
    );
}

#[test]
fn team_members_are_found_by_trimmed_name() {
    let t = team();
    let m = find_team_member(&t, "t1", " worker ").unwrap();
    assert_eq!(m.agent_id, "agent-2");
    assert_eq!(
        find_team_member(&t, "t1", "ghost").unwrap_err(),
        respond("member `ghost` not found in team `t1`")
    );
    assert_eq!(
        find_team_member(&t, "t1", " ").unwrap_err(),
        respond("member_name must be non-empty")
    );
}

#[test]
fn team_registry_reads_back_and_forgets_teams() {
    let mut registry = TeamRegistry::new();
    assert_eq!(registry.get_team_record("lead", "t1").unwrap_err(), respond("team `t1` not found"));
    registry.insert_team_record("lead", "t1".to_string(), team()).unwrap();
    assert_eq!(
        registry.insert_team_record("lead", "t1".to_string(), team()).unwrap_err(),
        respond("team `t1` already exists")
    );
    registry.insert_team_record("other", "t1".to_string(), team()).unwrap();
    assert_eq!(registry.get_team_record("lead", "t1").unwrap().members.len(), 3);

    let remaining = registry
        .remove_members_from_team("lead", "t1", &vec!["worker".to_string()])
        .unwrap()
        .expect("team remains");
    assert_eq!(remaining.members.len(), 2);
    assert_eq!(registry.get_team_record("lead", "t1").unwrap().members.len(), 2);
    let gone = registry
        .remove_members_from_team(
            "lead",
            "t1",
            &vec!["planner".to_string(), "checker".to_string()],
        )
        .unwrap();
    assert!(gone.is_none());
    assert!(registry.get_team_record("lead", "t1").is_err());
    assert!(registry.get_team_record("other", "t1").is_ok());
    registry.remove_team_record("other", "t1");
    assert!(registry.get_team_record("other", "t1").is_err());
    assert_eq!(
        registry.remove_members_from_team("lead", "t1", &vec![]).unwrap_err(),
        respond("team `t1` not found")
    );
}

#[test]
fn spawn_team_members_are_checked_in_order() {
    let m = |name: &str, task: &str| SpawnTeamMemberArgs {
        name: name.to_string(),
        task: task.to_string(),
        agent_type: None,
        model_provider: None,
        model: None,
        worktree: false,
        background: false,
    };
    assert_eq!(validate_spawn_team_members(&vec![]).unwrap_err(), respond("members must be non-empty"));
    assert_eq!(
        validate_spawn_team_members(&vec![m(" ", "t")]).unwrap_err(),
        respond("member name must be non-empty")
    );
    assert_eq!(
        validate_spawn_team_members(&vec![m("a", "t"), m(" a ", "t")]).unwrap_err(),
        respond("duplicate member name `a`")
    );
    assert_eq!(
        validate_spawn_team_members(&vec![m("a", " ")]).unwrap_err(),
        respond("task for member `a` must be non-empty")
    );
    assert!(validate_spawn_team_members(&vec![m("a", "t"), m("b", "u")]).is_ok());
    assert_eq!(spawn_team_id(None, "fresh".to_string()).unwrap(), "fresh");
    assert_eq!(spawn_team_id(Some(" t ".to_string()), "fresh".to_string()).unwrap(), "t");
}

#[test]
fn waits_report_final_states_in_order() {
    let ids = vec!["a".to_string(), "b".to_string(), "c".to_string()];
    let finals = vec![
        ("c".to_string(), AgentStatus::Shutdown),
        ("a".to_string(), AgentStatus::Completed(Some("done".to_string()))),
    ];
    let any = wait_for_agents_result(&ids, &finals, WaitMode::Any);
    assert_eq!(
        any.statuses,
        vec![
            ("a".to_string(), AgentStatus::Completed(Some("done".to_string()))),
            ("c".to_string(), AgentStatus::Shutdown),
        ]
    );
    assert!(!any.timed_out);
    let all = wait_for_agents_result(&ids, &finals, WaitMode::All);
    assert!(all.timed_out);
    let none = wait_for_agents_result(&ids, &vec![], WaitMode::Any);
    assert!(none.timed_out);
    assert!(wait_needed(WaitMode::Any, 0, 3));
    assert!(!wait_needed(WaitMode::Any, 1, 3));
    assert!(wait_needed(WaitMode::All, 2, 3));

    let members = vec![member("x", "a", None), member("y", "c", None)];
    let trig = triggered_member(WaitMode::Any, &any, &members).expect("triggered");
    assert_eq!(trig.name, "x");
    assert!(triggered_member(WaitMode::All, &any, &members).is_none());
    assert!(wait_team_completed(WaitMode::Any, &any, &vec![]));
    assert!(!wait_team_completed(WaitMode::All, &all, &vec![AgentStatus::Shutdown]));
    let ok = wait_for_agents_result(&vec!["a".to_string()], &finals, WaitMode::All);
    assert!(wait_team_completed(WaitMode::All, &ok, &vec![AgentStatus::Shutdown]));
    assert!(!wait_team_completed(WaitMode::All, &ok, &vec![AgentStatus::Running]));
}

#[test]
fn closing_selects_members_and_reports_states() {
    let t = team();
    assert_eq!(select_close_members(&t, None).unwrap().len(), 3);
    let chosen = select_close_members(&t, Some(vec![" worker ".to_string(), "ghost".to_string()])).unwrap();
    assert_eq!(chosen.len(), 1);
    assert_eq!(chosen[0].name, "worker");
    assert_eq!(
        select_close_members(&t, Some(vec![])).unwrap_err(),
        respond("members must be non-empty when provided")
    );
    assert_eq!(
        select_close_members(&t, Some(vec![" ".to_string()])).unwrap_err(),
        respond("member name must be non-empty")
    );
    assert_eq!(
        select_close_members(&t, Some(vec!["ghost".to_string()])).unwrap_err(),
        respond("no matching team members found")
    );
    assert_eq!(close_event_status(&AgentStatus::Running, true, AgentStatus::NotFound), AgentStatus::Shutdown);
    assert_eq!(close_event_status(&AgentStatus::NotFound, true, AgentStatus::Running), AgentStatus::NotFound);
    assert_eq!(close_event_status(&AgentStatus::Running, false, AgentStatus::Running), AgentStatus::Running);
    assert!(!needs_shutdown(&AgentStatus::Shutdown));
    assert!(needs_shutdown(&AgentStatus::Running));
    assert_eq!(close_member_outcome(None, None), (true, None));
    assert_eq!(
        close_member_outcome(Some("e".to_string()), Some("c".to_string())),
        (false, Some("e; c".to_string()))
    );
    let cfg = persisted_team_config("lead", "t1", &t);
    assert_eq!(cfg.team_name, "t1");
    assert_eq!(cfg.members.len(), 3);
    assert_eq!(cfg.members[1].agent_id, "agent-2");
}

fn task(id: &str, state: PersistedTaskState, deps: &[&str], agent: &str) -> PersistedTeamTask {
    PersistedTeamTask {
        id: id.to_string(),
        title: format!("title {id}"),
        state,
        depends_on: deps.iter().map(|d| d.to_string()).collect(),
        assignee: PersistedTeamTaskAssignee {
            name: format!("name-{agent}"),
            agent_id: agent.to_string(),
        },
        updated_at: 1,
    }
}

#[test]
fn tasks_are_claimed_after_their_dependencies_and_completed_once() {
    let tasks = vec![
        task("planner", PersistedTaskState::Pending, &[], "agent-1"),
        task("worker", PersistedTaskState::Pending, &["planner"], "agent-2"),
    ];
    assert!(!dependencies_satisfied(&tasks[1], &tasks));
    assert_eq!(
        claim_task(task("worker", PersistedTaskState::Pending, &["planner"], "agent-2"), &tasks, 5).unwrap_err(),
        respond("task `worker` has unresolved dependencies")
    );
    let done = complete_task(task("planner", PersistedTaskState::Pending, &[], "agent-1"), 6).unwrap();
    assert_eq!(done.state, PersistedTaskState::Completed);
    assert_eq!(done.updated_at, 6);
    let tasks = vec![done, task("worker", PersistedTaskState::Pending, &["planner"], "agent-2")];
    let claimed = claim_task(task("worker", PersistedTaskState::Pending, &["planner"], "agent-2"), &tasks, 7).unwrap();
    assert_eq!(claimed.state, PersistedTaskState::Claimed);
    assert_eq!(
        claim_task(task("worker", PersistedTaskState::Claimed, &[], "agent-2"), &tasks, 8).unwrap_err(),
        respond("task `worker` is already claimed")
    );
    let finished = complete_task(claimed, 9).unwrap();
    assert_eq!(
        complete_task(finished, 10).unwrap_err(),
        respond("task `worker` is already completed")
    );
}

#[test]
fn next_task_is_the_first_claimable_for_the_member() {
    let tasks = vec![
        task("a", PersistedTaskState::Completed, &[], "agent-1"),
        task("b", PersistedTaskState::Pending, &["z"], "agent-1"),
        task("c", PersistedTaskState::Pending, &["a"], "agent-2"),
        task("d", PersistedTaskState::Pending, &[], "agent-1"),
    ];
    assert_eq!(select_next_task(&tasks, &None), Some(2));
    let target = Some(member("name-agent-1", "agent-1", None));
    assert_eq!(select_next_task(&tasks, &target), Some(3));
    let nobody = Some(member("x", "agent-9", None));
    assert_eq!(select_next_task(&tasks, &nobody), None);
}

#[test]
fn task_lists_keep_tasks_of_current_members() {
    let tasks = vec![
        task("a", PersistedTaskState::Pending, &[], "agent-1"),
        task("b", PersistedTaskState::Pending, &[], "agent-9"),
        task("c", PersistedTaskState::Claimed, &[], "agent-3"),
    ];
    let out = tasks_of_members(tasks, &team().members);
    assert_eq!(out.len(), 2);
    assert_eq!(out[0].task_id, "a");
    assert_eq!(out[1].task_id, "c");
    assert_eq!(out[1].assignee_agent_id, "agent-3");

    let initial = build_initial_team_tasks(
        &vec![" plan ".to_string(), "work".to_string()],
        &team().members,
        vec!["id-1".to_string(), "id-2".to_string(), "id-3".to_string()],
        42,
    );
    assert_eq!(initial.len(), 2);
    assert_eq!(initial[0].title, "plan");
    assert_eq!(initial[1].assignee.name, "worker");
    assert_eq!(initial[1].id, "id-2");
    assert_eq!(initial[0].state, PersistedTaskState::Pending);
}

fn entry(id: &str) -> TeamInboxEntry {
    new_inbox_entry(id.to_string(), 1, "t1", "agent-2", "lead", Some("lead"), vec![], "hi")
}

#[test]
fn inbox_pops_and_acknowledges_each_message_once() {
    assert_eq!(pop_limit(None), 50);
    assert_eq!(pop_limit(Some(0)), 1);
    assert_eq!(pop_limit(Some(900)), 500);
    let cursor = TeamInboxCursor::default();
    assert_eq!(pop_window(cursor.acked_lines, 3, 2), (0, 2));
    let (entries, token) = pop_inbox_entries("t1", "agent-2", &cursor, vec![entry("e1"), entry("e2")]);
    assert_eq!(entries.len(), 2);
    let token = token.expect("token");
    assert_eq!(token.acked_lines, 2);
    assert_eq!(token.last_entry_id.as_deref(), Some("e2"));
    assert_eq!(ack_entry_line(&cursor, &token), Some(1));
    let next = ack_inbox(&cursor, &token, Some("e2".to_string())).unwrap().expect("advanced");
    assert_eq!(next.acked_lines, 2);
    assert!(ack_inbox(&next, &token, Some("e2".to_string())).unwrap().is_none());
    assert_eq!(pop_window(next.acked_lines, 3, 2), (2, 3));
    let stale = TeamInboxAckToken {
        team_id: "t1".to_string(),
        thread_id: "agent-2".to_string(),
        acked_lines: 1,
        last_entry_id: Some("e1".to_string()),
    };
    assert_eq!(
        ack_inbox(&next, &stale, None).unwrap_err(),
        respond("inbox ack is not monotonic (current=2, requested=1)")
    );
    assert_eq!(
        ack_inbox(&cursor, &token, Some("other".to_string())).unwrap_err(),
        respond("ack_token last_entry_id mismatch")
    );
    assert_eq!(
        ack_inbox(&cursor, &token, None).unwrap_err(),
        respond("ack_token references missing inbox entry")
    );
    let (empty, none) = pop_inbox_entries("t1", "agent-2", &next, vec![]);
    assert!(empty.is_empty() && none.is_none());
    assert_eq!(check_ack_token(&token, "t2", "agent-2").unwrap_err(), respond("ack_token team_id mismatch"));
    assert_eq!(check_ack_token(&token, "t1", "agent-3").unwrap_err(), respond("ack_token thread_id mismatch"));
    assert!(check_ack_token(&token, "t1", "agent-2").is_ok());
    assert_eq!(
        inbox_error("read", "t1", "agent-2", "boom"),
        respond("failed to read inbox for team `t1` thread `agent-2`: boom")
    );
    let message = TeamInboxMessage::from(entry("e9"));
    assert_eq!(message.id, "e9");
    assert_eq!(message.from_name.as_deref(), Some("lead"));
}
