//! Runtime ownership of threads, and per-role agent memory files.
use crate::paths::{join, join2, spec_join};
use crate::text::{chars_of, owned, string_of};
use vstd::prelude::*;

verus! {

/// Which front end owns a runtime.
#[derive(Debug, Clone, Copy, PartialEq, Eq, Structural)]
pub enum RuntimeOwner {
    Tui,
    Cli,
    Serve,
}

/// A live runtime's registration. Paths are held as text.
#[derive(Debug, Clone, PartialEq, Eq)]
pub struct RuntimeLiveRegistration {
    pub window_id: String,
    pub thread_id: String,
    pub pid: u32,
    pub cwd: String,
    pub socket_path: String,
    pub last_heartbeat_at: i64,
    pub runtime_owner: RuntimeOwner,
}

/// How long a lease holder may stay silent before its lease can be taken over, in seconds.
pub const OWNER_LEASE_TIMEOUT_SECS: i64 = 15;

/// A runtime's lease on a thread.
#[derive(Debug, Clone, PartialEq, Eq)]
pub struct ThreadOwnerLease {
    pub thread_id: String,
    pub runtime_owner: RuntimeOwner,
    pub pid: u32,
    pub window_id: Option<String>,
    pub created_at: i64,
    pub last_heartbeat_at: i64,
}

/// `now - then`, saturating at the bounds of `i64`.
pub open spec fn saturating_sub_i64(now: i64, then: i64) -> int {
    let d = now - then;
    if d > i64::MAX {
        i64::MAX as int
    } else if d < i64::MIN {
        i64::MIN as int
    } else {
        d
    }
}

impl ThreadOwnerLease {
    /// Whether the holder has been silent for longer than the lease timeout at `now`.
    pub fn heartbeat_expired(&self, now: i64) -> (r: bool)
        ensures
            r == (saturating_sub_i64(now, self.last_heartbeat_at) > OWNER_LEASE_TIMEOUT_SECS),
    {
        let d: i128 = (now as i128) - (self.last_heartbeat_at as i128);
        let d: i128 = if d > i64::MAX as i128 {
            i64::MAX as i128
        } else if d < i64::MIN as i128 {
            i64::MIN as i128
        } else {
            d
        };
        d > OWNER_LEASE_TIMEOUT_SECS as i128
    }

    /// Whether the lease can be taken over at `now`: its holder has been silent for longer
    /// than the timeout and its process is no longer running (`pid_running` says whether it
    /// is; it need only be found out when the heartbeat has expired).
    pub fn is_stale(&self, now: i64, pid_running: bool) -> (r: bool)
        ensures
            r == (saturating_sub_i64(now, self.last_heartbeat_at) > OWNER_LEASE_TIMEOUT_SECS
                && !pid_running),
    {
        self.heartbeat_expired(now) && !pid_running
    }
}

/// Whether a character is alphabetic or numeric in Unicode (`char::is_alphanumeric`).
pub uninterp spec fn unicode_alphanumeric(c: char) -> bool;

/// Calls `char::is_alphanumeric`, which says whether a character is alphabetic or numeric in
/// Unicode. Besides naming the result, the contract states that ASCII letters and digits are
/// alphanumeric, as the documentation of `is_alphabetic` and `is_numeric` gives.
#[verifier::external_body]
fn is_alphanumeric(c: char) -> (r: bool)
    ensures
        r == unicode_alphanumeric(c),
        ('a' <= c <= 'z' || 'A' <= c <= 'Z' || '0' <= c <= '9') ==> r,
{
    c.is_alphanumeric()
}

/// The characters a role name keeps in a memory directory name: alphanumeric ones, `-` and
/// `_`.
pub open spec fn role_char_kept(c: char) -> bool {
    unicode_alphanumeric(c) || c == '-' || c == '_'
}

/// A role name as it names a memory directory: its kept characters, or `default` when none
/// is kept.
pub open spec fn spec_sanitize_role(role: Seq<char>) -> Seq<char> {
    let kept = role.filter(|c: char| role_char_kept(c));
    if kept.len() == 0 {
        "default"@
    } else {
        kept
    }
}

/// A role name as it names a memory directory.
pub fn sanitize_role(role_name: &str) -> (r: String)
    ensures
        r@ == spec_sanitize_role(role_name@),
{
    let v = chars_of(role_name);
    let ghost keep = |c: char| role_char_kept(c);
    let mut out: Vec<char> = Vec::new();
    let mut i: usize = 0;
    while i < v.len()
        invariant
            i <= v@.len(),
            v@ == role_name@,
            keep == (|c: char| role_char_kept(c)),
            out@ == v@.take(i as int).filter(keep),
        decreases v@.len() - i,
    {
        let c = v[i];
        proof {
            reveal(Seq::filter);
            assert(v@.take(i + 1).drop_last() =~= v@.take(i as int));
        }
        if is_alphanumeric(c) || c == '-' || c == '_' {
            out.push(c);
        }
        i = i + 1;
    }
    assert(v@.take(v@.len() as int) =~= v@);
    if out.len() == 0 {
        owned("default")
    } else {
        string_of(out.as_slice())
    }
}

/// The memory directory of a role: `<home>/agent-memory/<role>`.
pub fn agent_memory_dir(codex_home: &str, role_name: &str) -> (r: String)
    ensures
        r@ == spec_join(spec_join(codex_home@, "agent-memory"@), spec_sanitize_role(role_name@)),
{
    let role = sanitize_role(role_name);
    join2(codex_home, "agent-memory", role.as_str())
}

/// The memory file of a role: `<memory dir>/MEMORY.md`.
pub fn agent_memory_path(codex_home: &str, role_name: &str) -> (r: String)
    ensures
        r@ == spec_join(
            spec_join(spec_join(codex_home@, "agent-memory"@), spec_sanitize_role(role_name@)),
            "MEMORY.md"@,
        ),
{
    let d = agent_memory_dir(codex_home, role_name);
    join(d.as_str(), "MEMORY.md")
}

} // verus!
