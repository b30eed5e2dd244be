//! Where things live under the Codex home directory. Paths are held as text and joined the way
//! `Path::join` joins them on Unix.
use crate::text::{chars_of, push_str, string_of};
use vstd::prelude::*;

verus! {

/// `Path::join` on Unix: a path that starts with `/` replaces the base; otherwise it is
/// appended, after a `/` when the base is not empty and does not already end with one.
pub open spec fn spec_join(base: Seq<char>, p: Seq<char>) -> Seq<char> {
    if p.len() > 0 && p[0] == '/' {
        p
    } else if base.len() == 0 || base.last() == '/' {
        base + p
    } else {
        base + seq!['/'] + p
    }
}

/// Joins a path to a base path.
pub fn join(base: &str, p: &str) -> (r: String)
    ensures
        r@ == spec_join(base@, p@),
{
    let pv = chars_of(p);
    if pv.len() > 0 && pv[0] == '/' {
        return string_of(pv.as_slice());
    }
    let mut out = chars_of(base);
    if out.len() > 0 && out[out.len() - 1] != '/' {
        out.push('/');
    }
    push_str(&mut out, p);
    string_of(out.as_slice())
}

/// Joins two segments to a base path.
pub fn join2(base: &str, a: &str, b: &str) -> (r: String)
    ensures
        r@ == spec_join(spec_join(base@, a@), b@),
{
    let first = join(base, a);
    join(first.as_str(), b)
}

/// A file name made of a stem and an extension-like suffix.
pub fn file_name(stem: &str, suffix: &str) -> (r: String)
    ensures
        r@ == stem@ + suffix@,
{
    let mut out = chars_of(stem);
    push_str(&mut out, suffix);
    string_of(out.as_slice())
}

/// The directory of a team's configuration: `<home>/teams/<team>`.
pub fn team_dir(codex_home: &str, team_id: &str) -> (r: String)
    ensures
        r@ == spec_join(spec_join(codex_home@, "teams"@), team_id@),
{
    join2(codex_home, "teams", team_id)
}

/// A team's configuration file: `<team dir>/config.json`.
pub fn team_config_path(codex_home: &str, team_id: &str) -> (r: String)
    ensures
        r@ == spec_join(spec_join(spec_join(codex_home@, "teams"@), team_id@), "config.json"@),
{
    let d = team_dir(codex_home, team_id);
    join(d.as_str(), "config.json")
}

/// The directory of a team's tasks: `<home>/tasks/<team>`.
pub fn team_tasks_dir(codex_home: &str, team_id: &str) -> (r: String)
    ensures
        r@ == spec_join(spec_join(codex_home@, "tasks"@), team_id@),
{
    join2(codex_home, "tasks", team_id)
}

/// A task's file: `<tasks dir>/<task>.json`.
pub fn team_task_path(codex_home: &str, team_id: &str, task_id: &str) -> (r: String)
    ensures
        r@ == spec_join(spec_join(spec_join(codex_home@, "tasks"@), team_id@), task_id@ + ".json"@),
{
    let d = team_tasks_dir(codex_home, team_id);
    let f = file_name(task_id, ".json");
    join(d.as_str(), f.as_str())
}

/// The directory of a team's inboxes: `<team dir>/inbox`.
pub fn inbox_dir(codex_home: &str, team_id: &str) -> (r: String)
    ensures
        r@ == spec_join(spec_join(spec_join(codex_home@, "teams"@), team_id@), "inbox"@),
{
    let d = team_dir(codex_home, team_id);
    join(d.as_str(), "inbox")
}

/// A file of a thread's inbox: `<inbox dir>/<thread><suffix>`.
pub open spec fn spec_inbox_file(
    codex_home: Seq<char>,
    team_id: Seq<char>,
    thread_id: Seq<char>,
    suffix: Seq<char>,
) -> Seq<char> {
    spec_join(
        spec_join(spec_join(spec_join(codex_home, "teams"@), team_id), "inbox"@),
        thread_id + suffix,
    )
}

/// A thread's inbox log: `<inbox dir>/<thread>.jsonl`.
pub fn inbox_path(codex_home: &str, team_id: &str, thread_id: &str) -> (r: String)
    ensures
        r@ == spec_inbox_file(codex_home@, team_id@, thread_id@, ".jsonl"@),
{
    let d = inbox_dir(codex_home, team_id);
    let f = file_name(thread_id, ".jsonl");
    join(d.as_str(), f.as_str())
}

/// The lock file of a thread's inbox: `<inbox dir>/<thread>.lock`.
pub fn inbox_lock_path(codex_home: &str, team_id: &str, thread_id: &str) -> (r: String)
    ensures
        r@ == spec_inbox_file(codex_home@, team_id@, thread_id@, ".lock"@),
{
    let d = inbox_dir(codex_home, team_id);
    let f = file_name(thread_id, ".lock");
    join(d.as_str(), f.as_str())
}

/// The read cursor of a thread's inbox: `<inbox dir>/<thread>.cursor.json`.
pub fn inbox_cursor_path(codex_home: &str, team_id: &str, thread_id: &str) -> (r: String)
    ensures
        r@ == spec_inbox_file(codex_home@, team_id@, thread_id@, ".cursor.json"@),
{
    let d = inbox_dir(codex_home, team_id);
    let f = file_name(thread_id, ".cursor.json");
    join(d.as_str(), f.as_str())
}

/// Where marketplaces are installed: `<home>/.tmp/marketplaces`.
pub fn marketplace_install_root(codex_home: &str) -> (r: String)
    ensures
        r@ == spec_join(codex_home@, ".tmp/marketplaces"@),
{
    join(codex_home, ".tmp/marketplaces")
}

/// Where live runtimes register: `<home>/runtime/live`.
pub fn runtime_live_dir(codex_home: &str) -> (r: String)
    ensures
        r@ == spec_join(spec_join(codex_home@, "runtime"@), "live"@),
{
    join2(codex_home, "runtime", "live")
}

/// A live runtime's registration file: `<live dir>/<window>.json`.
pub fn runtime_live_registration_path(codex_home: &str, window_id: &str) -> (r: String)
    ensures
        r@ == spec_join(spec_join(spec_join(codex_home@, "runtime"@), "live"@), window_id@ + ".json"@),
{
    let d = runtime_live_dir(codex_home);
    let f = file_name(window_id, ".json");
    join(d.as_str(), f.as_str())
}

/// A live runtime's socket: `<live dir>/<window>.sock`.
pub fn runtime_live_socket_path(codex_home: &str, window_id: &str) -> (r: String)
    ensures
        r@ == spec_join(spec_join(spec_join(codex_home@, "runtime"@), "live"@), window_id@ + ".sock"@),
{
    let d = runtime_live_dir(codex_home);
    let f = file_name(window_id, ".sock");
    join(d.as_str(), f.as_str())
}

/// Where thread owner leases are kept: `<home>/runtime/leases`.
pub fn runtime_leases_dir(codex_home: &str) -> (r: String)
    ensures
        r@ == spec_join(spec_join(codex_home@, "runtime"@), "leases"@),
{
    join2(codex_home, "runtime", "leases")
}

/// A thread's owner lease: `<leases dir>/<thread>.lock`.
pub fn runtime_owner_lease_path(codex_home: &str, thread_id: &str) -> (r: String)
    ensures
        r@ == spec_join(spec_join(spec_join(codex_home@, "runtime"@), "leases"@), thread_id@ + ".lock"@),
{
    let d = runtime_leases_dir(codex_home);
    let f = file_name(thread_id, ".lock");
    join(d.as_str(), f.as_str())
}

} // verus!
