use codex_logic::apply_patch::{
    ApplyPatchRuntime, ApprovalPolicy, ApprovalRoute, RejectConfig, ReviewDecision,
    SandboxPermissions, CODEX_CORE_APPLY_PATCH_ARG1,
};
use codex_logic::exec_wrapper::{
    check_wrapper_response, wrapped_args, wrapper_exit_code, wrapper_target, WrapperExecAction,
};
use codex_logic::hooks::executor::{
    agent_hook_failure, agent_hook_prompt, hook_timeout_secs, prompt_hook_failure,
    AgentHookFailure, PromptHookFailure, AGENT_HOOK_DEFAULT_TIMEOUT_SECS,
};
use codex_logic::marketplace::removal_report;
use codex_logic::paths::{
    inbox_cursor_path, inbox_path, join, marketplace_install_root, runtime_live_registration_path,
    runtime_live_socket_path, team_config_path, team_task_path,
};
use codex_logic::permissions::{
    MacOsAutomationPermission, MacOsPreferencesPermission, MacOsSeatbeltProfileExtensions,
    PermissionProfile, RequestPermissionProfile,
};
use codex_logic::prompts::{build_consolidation_prompt, render_template, rollout_token_limit};
use codex_logic::runtime::{
    agent_memory_path, sanitize_role, RuntimeOwner, ThreadOwnerLease, OWNER_LEASE_TIMEOUT_SECS,
};
use codex_logic::turns::{
    after_thread_page, check_archived_file_name, list_turns, model_provider_filter,
    resolve_rollout_path, restored_rollout_path, take_accepted, thread_page_size, turns_limit,
    turns_read_error, JsonRpcError, ListStep, RolloutLookup, INTERNAL_ERROR_CODE,
    INVALID_REQUEST_ERROR_CODE,
};
use codex_logic::worktree::{
    removal_error_ignored, worktree_add_args, worktree_root, WorktreeLease, WorktreeLeases,
};

fn invalid(m: &str) -> JsonRpcError {
    JsonRpcError { code: INVALID_REQUEST_ERROR_CODE, message: m.to_string() }
}

#[test]
fn turns_page_forward_and_backward() {
    let turns: Vec<u32> = (0..7).collect();
    let page = list_turns(turns.clone(), None, None, Some(3)).unwrap();
    assert_eq!(page.data, vec![0, 1, 2]);
    assert_eq!(page.next_cursor.as_deref(), Some("3"));
    assert_eq!(page.backwards_cursor, None);
    let page = list_turns(turns.clone(), Some("3".to_string()), None, Some(3)).unwrap();
    assert_eq!(page.data, vec![3, 4, 5]);
    assert_eq!(page.next_cursor.as_deref(), Some("6"));
    assert_eq!(page.backwards_cursor.as_deref(), Some("0"));
    let page = list_turns(turns.clone(), Some("6".to_string()), None, Some(3)).unwrap();
    assert_eq!(page.data, vec![6]);
    assert_eq!(page.next_cursor, None);
    assert_eq!(page.backwards_cursor.as_deref(), Some("3"));
    let page = list_turns(turns.clone(), None, Some("3".to_string()), Some(3)).unwrap();
    assert_eq!(page.data, vec![3, 4, 5]);
}

#[test]
fn turns_listing_refuses_bad_cursors() {
    let turns: Vec<u32> = (0..2).collect();
    assert_eq!(
        list_turns(turns.clone(), Some("0".to_string()), Some("0".to_string()), None).unwrap_err(),
        invalid("cursor and backwardsCursor are mutually exclusive")
    );
    assert_eq!(
        list_turns(turns.clone(), Some("x".to_string()), None, None).unwrap_err(),
        invalid("invalid cursor: x")
    );
    assert_eq!(
        list_turns(turns.clone(), Some("5".to_string()), None, None).unwrap_err(),
        invalid("cursor 5 exceeds total turns 2")
    );
    assert_eq!(list_turns(turns, Some("2".to_string()), None, None).unwrap().data, Vec::<u32>::new());
    assert_eq!(turns_limit(None), 25);
    assert_eq!(turns_limit(Some(0)), 1);
    assert_eq!(turns_limit(Some(1000)), 100);
}

#[test]
fn thread_listing_pages_until_enough_or_stuck() {
    assert_eq!(thread_page_size(250), 100);
    assert_eq!(thread_page_size(7), 7);
    assert_eq!(take_accepted(&vec![false, true, true, false, true], 2), vec![1, 2]);
    assert_eq!(take_accepted(&vec![false, true], 5), vec![1]);
    assert!(matches!(after_thread_page(5, 5, Some("n".to_string()), &None), ListStep::Done(Some(ref c)) if c == "n"));
    assert!(matches!(after_thread_page(5, 2, None, &None), ListStep::Done(None)));
    assert!(matches!(after_thread_page(5, 2, Some("n".to_string()), &Some("n".to_string())), ListStep::Done(None)));
    assert!(matches!(after_thread_page(5, 2, Some("n".to_string()), &Some("m".to_string())), ListStep::Continue(ref c) if c == "n"));
    assert_eq!(model_provider_filter(None, "openai"), Some(vec!["openai".to_string()]));
    assert_eq!(model_provider_filter(Some(vec![]), "openai"), None);
}

#[test]
fn thread_reads_and_restores_are_checked() {
    assert_eq!(
        resolve_rollout_path("t", Some("/db".to_string()), false, RolloutLookup::Missing).unwrap(),
        Some("/db".to_string())
    );
    assert_eq!(
        resolve_rollout_path("t", Some("/db".to_string()), true, RolloutLookup::Missing).unwrap_err(),
        JsonRpcError { code: INTERNAL_ERROR_CODE, message: "failed to locate rollout for thread t".to_string() }
    );
    assert_eq!(
        resolve_rollout_path("t", None, true, RolloutLookup::Failed("io".to_string())).unwrap_err(),
        invalid("failed to locate thread id t: io")
    );
    assert_eq!(
        turns_read_error("t", "/r", true, "gone"),
        invalid("thread t is not materialized yet; includeTurns is unavailable before first user message")
    );
    assert!(check_archived_file_name(&Some("rollout-2025-abc.jsonl".to_string()), "abc", "/a/r").is_ok());
    assert_eq!(
        check_archived_file_name(&Some("rollout-xyz.jsonl".to_string()), "abc", "/a/r").unwrap_err(),
        invalid("rollout path `/a/r` does not match thread id abc")
    );
    assert_eq!(
        check_archived_file_name(&None, "abc", "/a/r").unwrap_err(),
        invalid("rollout path `/a/r` missing file name")
    );
    assert_eq!(
        restored_rollout_path("/home", "2025", "01", "02", "r.jsonl"),
        "/home/sessions/2025/01/02/r.jsonl"
    );
}

#[test]
fn templates_fill_known_keys_and_keep_the_rest() {
    let table = vec![("name".to_string(), "Ada".to_string())];
    assert_eq!(render_template("Hi {{ name }}, {{other}}!", &table), "Hi Ada, {{other}}!");
    assert_eq!(render_template("open {{ name", &table), "open {{ name");
    assert_eq!(render_template("{{{{name}}}}", &table), "Ada}}");
    assert_eq!(build_consolidation_prompt("root={{memory_root}}", "/m"), "root=/m");
    assert_eq!(rollout_token_limit(Some(1000), 95, 70, 7), 665);
    assert_eq!(rollout_token_limit(None, 95, 70, 7), 7);
    assert_eq!(rollout_token_limit(Some(0), 95, 70, 7), 7);
    assert_eq!(rollout_token_limit(Some(1), 1, 70, 7), 1);
}

#[test]
fn paths_live_under_the_codex_home() {
    assert_eq!(join("/a/", "b"), "/a/b");
    assert_eq!(join("/a", "/abs"), "/abs");
    assert_eq!(join("", "b"), "b");
    assert_eq!(team_config_path("/h", "t1"), "/h/teams/t1/config.json");
    assert_eq!(team_task_path("/h", "t1", "k"), "/h/tasks/t1/k.json");
    assert_eq!(inbox_path("/h", "t1", "a"), "/h/teams/t1/inbox/a.jsonl");
    assert_eq!(inbox_cursor_path("/h", "t1", "a"), "/h/teams/t1/inbox/a.cursor.json");
    assert_eq!(marketplace_install_root("/h"), "/h/.tmp/marketplaces");
    assert_eq!(runtime_live_registration_path("/h", "w"), "/h/runtime/live/w.json");
    assert_eq!(runtime_live_socket_path("/h", "w"), "/h/runtime/live/w.sock");
    assert_eq!(agent_memory_path("/h", "ch/ecker!"), "/h/agent-memory/checker/MEMORY.md");
    assert_eq!(sanitize_role("!!"), "default");
    assert_eq!(sanitize_role("dev_ops-1"), "dev_ops-1");
}

#[test]
fn lease_staleness_requires_expired_heartbeat_and_dead_pid() {
    let lease = ThreadOwnerLease {
        thread_id: "thread".to_string(),
        runtime_owner: RuntimeOwner::Serve,
        pid: i32::MAX as u32,
        window_id: None,
        created_at: 100,
        last_heartbeat_at: 100,
    };

    assert_eq!(lease.is_stale(100 + OWNER_LEASE_TIMEOUT_SECS, false), false);
    assert_eq!(lease.is_stale(100 + OWNER_LEASE_TIMEOUT_SECS + 1, false), true);
    assert_eq!(lease.is_stale(100 + OWNER_LEASE_TIMEOUT_SECS + 1, true), false);
}

#[test]
fn request_permission_profile_round_trips_macos_permissions() {
    let profile = RequestPermissionProfile {
        macos: Some(MacOsSeatbeltProfileExtensions {
            macos_preferences: MacOsPreferencesPermission::ReadWrite,
            macos_automation: MacOsAutomationPermission::BundleIds(vec![
                "com.apple.Notes".to_string(),
            ]),
            macos_launch_services: true,
            macos_accessibility: true,
            macos_calendar: false,
            macos_reminders: false,
            macos_contacts: Default::default(),
        }),
        ..Default::default()
    };

    assert_eq!(
        RequestPermissionProfile::from(PermissionProfile::from(profile.clone())),
        profile
    );
    assert!(!profile.is_empty());
    assert!(RequestPermissionProfile::default().is_empty());
}

#[test]
fn wants_no_sandbox_approval_reject_respects_sandbox_flag() {
    let runtime = ApplyPatchRuntime::new();
    assert!(runtime.wants_no_sandbox_approval(ApprovalPolicy::OnRequest));
    assert!(
        !runtime.wants_no_sandbox_approval(ApprovalPolicy::Reject(RejectConfig {
            sandbox_approval: true,
            rules: false,
            mcp_elicitations: false,
        }))
    );
    assert!(
        runtime.wants_no_sandbox_approval(ApprovalPolicy::Reject(RejectConfig {
            sandbox_approval: false,
            rules: false,
            mcp_elicitations: false,
        }))
    );
}

#[test]
fn patches_run_codex_with_scoped_permissions() {
    let runtime = ApplyPatchRuntime::new();
    let perms = runtime.scoped_permissions(&vec!["/w/a.txt".to_string()]);
    let fs = perms.file_system.clone().expect("fs");
    assert_eq!(fs.read, Some(vec!["/w/a.txt".to_string()]));
    assert_eq!(fs.write, Some(vec!["/w/a.txt".to_string()]));
    let spec = runtime.build_command_spec("/bin/codex".to_string(), "*** Begin Patch", "/w", Some(5), Some(perms));
    assert_eq!(spec.args, vec![CODEX_CORE_APPLY_PATCH_ARG1.to_string(), "*** Begin Patch".to_string()]);
    assert_eq!(spec.env[0], ("TMPDIR".to_string(), "/w".to_string()));
    assert_eq!(spec.sandbox_permissions, SandboxPermissions::WithAdditionalPermissions);
    assert_eq!(runtime.approval_route(true, true), ApprovalRoute::AskWithReason);
    assert_eq!(runtime.approval_route(false, true), ApprovalRoute::Approved);
    assert!(runtime.remembers_write_roots(ReviewDecision::ApprovedForSession));
    assert!(!runtime.remembers_write_roots(ReviewDecision::Approved));
}

#[test]
fn exec_wrapper_runs_only_allowed_commands() {
    assert_eq!(
        wrapper_target(&vec!["wrapper".to_string()]).unwrap_err(),
        "exec wrapper mode requires target executable path"
    );
    let (file, argv) = wrapper_target(&vec!["w".to_string(), "/bin/ls".to_string()]).unwrap();
    assert_eq!(file, "/bin/ls");
    assert_eq!(argv, vec!["/bin/ls".to_string()]);
    let (_, argv) = wrapper_target(&vec!["w".to_string(), "/bin/ls".to_string(), "ls".to_string(), "-l".to_string()]).unwrap();
    assert_eq!(argv, vec!["ls".to_string(), "-l".to_string()]);
    assert_eq!(wrapped_args(&argv), vec!["-l".to_string()]);
    assert_eq!(check_wrapper_response("a", "a", WrapperExecAction::Run), Ok(true));
    assert_eq!(check_wrapper_response("a", "a", WrapperExecAction::Deny), Ok(false));
    assert_eq!(
        check_wrapper_response("a", "b", WrapperExecAction::Run),
        Err("wrapper response request_id mismatch: expected a, got b".to_string())
    );
    assert_eq!(wrapper_exit_code(None), 1);
    assert_eq!(wrapper_exit_code(Some(3)), 3);
}

#[test]
fn hook_executor_failures_and_prompts() {
    assert_eq!(hook_timeout_secs(None, AGENT_HOOK_DEFAULT_TIMEOUT_SECS), 60);
    assert_eq!(hook_timeout_secs(Some(4), 60), 4);
    let r = agent_hook_failure(AgentHookFailure::SpawnFailed("x".to_string()));
    assert_eq!(r.error.as_deref(), Some("agent hook failed to spawn: x"));
    let r = prompt_hook_failure(PromptHookFailure::TimedOut);
    assert_eq!(r.error.as_deref(), Some("prompt hook timed out"));
    let p = agent_hook_prompt("check $ARGUMENTS", "{}");
    assert!(p.starts_with("You are running an agent hook verifier."));
    assert!(p.ends_with("\n\ncheck {}"));
}

#[test]
fn marketplace_removal_is_reported() {
    assert_eq!(removal_report("m", None), vec!["Removed marketplace `m`.".to_string()]);
    assert_eq!(
        removal_report("m", Some("/h/.tmp/marketplaces/m")),
        vec![
            "Removed marketplace `m`.".to_string(),
            "Removed installed marketplace root: /h/.tmp/marketplaces/m".to_string()
        ]
    );
}

#[test]
fn worktree_leases_are_taken_once() {
    assert_eq!(worktree_root("/h", "lead"), "/h/worktrees/lead");
    assert_eq!(worktree_add_args("/r", "/w")[2], "worktree");
    assert!(removal_error_ignored("fatal: '/w' is not a working tree"));
    assert!(!removal_error_ignored("fatal: locked"));
    let mut leases = WorktreeLeases::new();
    leases.register_worktree_lease("a", WorktreeLease { repo_root: "/r".to_string(), worktree_path: "/w1".to_string() });
    leases.register_worktree_lease("a", WorktreeLease { repo_root: "/r".to_string(), worktree_path: "/w2".to_string() });
    let lease = leases.take_worktree_lease("a").expect("lease");
    assert_eq!(lease.worktree_path, "/w2");
    assert!(leases.take_worktree_lease("a").is_none());
}

#[test]
fn rollout_token_limit_follows_model_context_window() {
    // A 123,000-token window at 95% effective use, of which 70% goes to the rollout.
    assert_eq!(rollout_token_limit(Some(123_000), 95, 70, 150_000), ((123_000 * 95) / 100) * 70 / 100);
    assert_eq!(rollout_token_limit(Some(123_000), 95, 70, 150_000), 81_795);
    // Without a window the default limit applies.
    assert_eq!(rollout_token_limit(None, 95, 70, 150_000), 150_000);
}
