use codex_logic::turns::{
    check_in_archived_dir, check_thread_id, path_is_under, start_cursor, thread_accepted,
    INVALID_REQUEST_ERROR_CODE,
};

#[test]
fn thread_ids_must_be_uuids() {
    assert!(check_thread_id("b5f6c1c2-1111-2222-3333-444455556666").is_ok());
    let err = check_thread_id("not-a-thread").expect_err("invalid");
    assert_eq!(err.code, INVALID_REQUEST_ERROR_CODE);
    assert!(err.message.starts_with("invalid thread id: "));
    assert!(err.message.len() > "invalid thread id: ".len());
}

#[test]
fn listing_filters_by_source_kind_and_cwd() {
    let kinds = Some(vec!["cli".to_string(), "vscode".to_string()]);
    assert!(thread_accepted("cli", &kinds, None));
    assert!(!thread_accepted("exec", &kinds, None));
    assert!(thread_accepted("exec", &None, None));
    assert!(thread_accepted("vscode", &kinds, Some(true)));
    assert!(!thread_accepted("vscode", &kinds, Some(false)));
    assert!(!thread_accepted("cli", &Some(Vec::new()), None));
}

#[test]
fn listing_cursor_must_parse() {
    assert_eq!(start_cursor::<u32>(&None, None).unwrap(), None);
    assert_eq!(start_cursor(&Some("c1".to_string()), Some(7u32)).unwrap(), Some(7));
    let err = start_cursor::<u32>(&Some("bogus".to_string()), None).expect_err("invalid");
    assert_eq!(err.code, INVALID_REQUEST_ERROR_CODE);
    assert_eq!(err.message, "invalid cursor: bogus");
}

#[test]
fn path_containment_goes_by_components() {
    assert!(path_is_under("/home/u/.codex/archived_sessions/a.jsonl", "/home/u/.codex/archived_sessions"));
    assert!(path_is_under("/a/b", "/a/b/"));
    assert!(path_is_under("/a//b/./c", "/a/b"));
    assert!(!path_is_under("/a/bc", "/a/b"));
    assert!(!path_is_under("/a", "/a/b"));
    assert!(!path_is_under("a/b", "/a"));
    assert!(path_is_under("./a/b", "./a"));
    assert!(!path_is_under("./a", "a"));
}

#[test]
fn unarchive_requires_the_archived_directory() {
    assert!(check_in_archived_dir(&Some("/h/archived_sessions/x.jsonl".to_string()), "/h/archived_sessions", "x").is_ok());
    let err = check_in_archived_dir(&Some("/h/sessions/x.jsonl".to_string()), "/h/archived_sessions", "/h/sessions/x.jsonl")
        .expect_err("outside");
    assert_eq!(err.code, INVALID_REQUEST_ERROR_CODE);
    assert_eq!(err.message, "rollout path `/h/sessions/x.jsonl` must be in archived directory");
    assert!(check_in_archived_dir(&None, "/h/archived_sessions", "p").is_err());
}
