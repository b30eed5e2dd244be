use codex_logic::collab::FunctionCallError;
use codex_logic::teams::{
    observe_status, spawn_team_start, spawn_team_step, subscription_step, AgentStatus,
    SpawnTeamAction, SpawnTeamEvent, SpawnTeamMemberArgs, SubscribeOutcome, SubscribeStep,
};
use codex_logic::worktree::WorktreeLease;

fn member(name: &str, worktree: bool) -> SpawnTeamMemberArgs {
    SpawnTeamMemberArgs {
        name: name.to_string(),
        task: format!("task of {name}"),
        agent_type: Some("worker".to_string()),
        model_provider: None,
        model: None,
        worktree,
        background: false,
    }
}

fn lease(path: &str) -> WorktreeLease {
    WorktreeLease { repo_root: "/repo".to_string(), worktree_path: path.to_string() }
}

#[test]
fn spawn_team_spawns_in_order_and_finishes() {
    let members = vec![member(" alice ", false), member("bob", true)];
    let (st, a) = spawn_team_start(&members, 100);
    assert!(matches!(a, SpawnTeamAction::SpawnMember { index: 0, cwd: None }));
    let (st, a) = spawn_team_step(st, SpawnTeamEvent::MemberSpawned(Ok(("a1".to_string(), AgentStatus::Running))));
    assert!(matches!(a, SpawnTeamAction::CreateWorktree(1)));
    let (st, a) = spawn_team_step(st, SpawnTeamEvent::WorktreeCreated(Ok(lease("/wt/b"))));
    match &a {
        SpawnTeamAction::SpawnMember { index, cwd } => {
            assert_eq!(*index, 1);
            assert_eq!(cwd.as_deref(), Some("/wt/b"));
        }
        other => panic!("unexpected {other:?}"),
    }
    let (st, a) = spawn_team_step(st, SpawnTeamEvent::MemberSpawned(Ok(("b1".to_string(), AgentStatus::PendingInit))));
    match &a {
        SpawnTeamAction::RegisterLease { agent_id, lease } => {
            assert_eq!(agent_id, "b1");
            assert_eq!(lease.worktree_path, "/wt/b");
        }
        other => panic!("unexpected {other:?}"),
    }
    let (st, a) = spawn_team_step(st, SpawnTeamEvent::LeaseRegistered);
    match &a {
        SpawnTeamAction::InsertRecord(r) => {
            assert_eq!(r.created_at, 100);
            assert_eq!(r.members.len(), 2);
            assert_eq!(r.members[0].name, "alice");
            assert_eq!(r.members[1].agent_id, "b1");
        }
        other => panic!("unexpected {other:?}"),
    }
    let (st, a) = spawn_team_step(st, SpawnTeamEvent::RecordInserted(Ok(())));
    assert!(matches!(a, SpawnTeamAction::Persist(_)));
    let (_st, a) = spawn_team_step(st, SpawnTeamEvent::Persisted(Ok(())));
    match a {
        SpawnTeamAction::Finish { members, statuses } => {
            let names: Vec<_> = members.iter().map(|m| m.name.as_str()).collect();
            assert_eq!(names, vec!["alice", "bob"]);
            assert_eq!(statuses, vec![AgentStatus::Running, AgentStatus::PendingInit]);
        }
        other => panic!("unexpected {other:?}"),
    }
}

#[test]
fn spawn_team_rolls_back_what_was_spawned() {
    let members = vec![member("alice", false), member("bob", true)];
    let (st, _) = spawn_team_start(&members, 5);
    let (st, _) = spawn_team_step(st, SpawnTeamEvent::MemberSpawned(Ok(("a1".to_string(), AgentStatus::Running))));
    let (st, _) = spawn_team_step(st, SpawnTeamEvent::WorktreeCreated(Ok(lease("/wt/b"))));
    let err = FunctionCallError::RespondToModel("spawn failed".to_string());
    let (_st, a) = spawn_team_step(st, SpawnTeamEvent::MemberSpawned(Err(err)));
    match a {
        SpawnTeamAction::Rollback { spawned, remove_worktree, remove_record, remove_files, error } => {
            assert_eq!(spawned.len(), 1);
            assert_eq!(spawned[0].agent_id, "a1");
            assert_eq!(remove_worktree.map(|l| l.worktree_path), Some("/wt/b".to_string()));
            assert!(!remove_record && !remove_files);
            assert_eq!(error, FunctionCallError::RespondToModel("spawn failed".to_string()));
        }
        other => panic!("unexpected {other:?}"),
    }
}

#[test]
fn spawn_team_failed_persist_drops_record_and_files() {
    let members = vec![member("alice", false)];
    let (st, _) = spawn_team_start(&members, 5);
    let (st, _) = spawn_team_step(st, SpawnTeamEvent::MemberSpawned(Ok(("a1".to_string(), AgentStatus::Running))));
    let (st, _) = spawn_team_step(st, SpawnTeamEvent::RecordInserted(Ok(())));
    let (_st, a) = spawn_team_step(st, SpawnTeamEvent::Persisted(Err(FunctionCallError::RespondToModel("disk".to_string()))));
    match a {
        SpawnTeamAction::Rollback { spawned, remove_record, remove_files, .. } => {
            assert_eq!(spawned.len(), 1);
            assert!(remove_record && remove_files);
        }
        other => panic!("unexpected {other:?}"),
    }
}

#[test]
fn spawn_team_config_refusal_aborts_and_stray_events_change_nothing() {
    let members = vec![member("alice", false)];
    let (st, _) = spawn_team_start(&members, 5);
    let (st, a) = spawn_team_step(st, SpawnTeamEvent::Persisted(Ok(())));
    assert!(matches!(a, SpawnTeamAction::Unexpected));
    let (st, a) = spawn_team_step(st, SpawnTeamEvent::WorktreeCreated(Ok(lease("/x"))));
    assert!(matches!(a, SpawnTeamAction::Unexpected));
    let (_st, a) = spawn_team_step(st, SpawnTeamEvent::ConfigRejected(FunctionCallError::RespondToModel("bad role".to_string())));
    assert!(matches!(a, SpawnTeamAction::Abort(FunctionCallError::RespondToModel(ref m)) if m == "bad role"));
}

#[test]
fn wait_subscriptions_record_finals_and_not_found() {
    let mut finals = Vec::new();
    assert!(matches!(
        subscription_step(&mut finals, "a", SubscribeOutcome::Subscribed(AgentStatus::Completed(None))),
        SubscribeStep::Recorded
    ));
    assert!(matches!(
        subscription_step(&mut finals, "b", SubscribeOutcome::Subscribed(AgentStatus::Running)),
        SubscribeStep::Watch
    ));
    assert!(matches!(subscription_step(&mut finals, "c", SubscribeOutcome::ThreadNotFound), SubscribeStep::Recorded));
    match subscription_step(&mut finals, "d", SubscribeOutcome::Failed("boom".to_string())) {
        SubscribeStep::Fail(e) => assert_eq!(e, "boom"),
        other => panic!("unexpected {other:?}"),
    }
    assert_eq!(finals, vec![("a".to_string(), AgentStatus::Completed(None)), ("c".to_string(), AgentStatus::NotFound)]);
    assert!(!observe_status(&mut finals, "b", AgentStatus::Running));
    assert!(observe_status(&mut finals, "b", AgentStatus::Errored("x".to_string())));
    assert_eq!(finals.len(), 3);
}
