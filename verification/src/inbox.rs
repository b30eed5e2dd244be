//! Team inboxes: an append-only log of messages per thread, read in windows after a cursor and
//! acknowledged with a token that moves the cursor forward.
use crate::collab::{respond, responds, FunctionCallError, UserInput};
use crate::text::{chars_of, owned, push_str, str_eq, string_of};
use crate::decimal::{decimal, usize_to_decimal};
use vstd::prelude::*;

verus! {

/// One message in a thread's inbox log.
#[derive(Debug)]
pub struct TeamInboxEntry {
    pub id: String,
    pub created_at: i64,
    pub team_id: String,
    pub from_thread_id: String,
    pub from_name: Option<String>,
    pub to_thread_id: String,
    pub input_items: Vec<UserInput>,
    pub prompt: String,
}

/// How far a thread has acknowledged its inbox: the number of lines, and the identifier of the
/// last acknowledged entry.
#[derive(Debug)]
pub struct TeamInboxCursor {
    pub acked_lines: usize,
    pub last_entry_id: Option<String>,
}

impl Default for TeamInboxCursor {
    /// The cursor of an inbox that nothing was acknowledged in.
    fn default() -> (r: Self)
        ensures
            r.acked_lines == 0,
            r.last_entry_id is None,
    {
        TeamInboxCursor { acked_lines: 0, last_entry_id: None }
    }
}

/// What a reader hands back to acknowledge the entries it was given.
#[derive(Debug)]
pub struct TeamInboxAckToken {
    pub team_id: String,
    pub thread_id: String,
    pub acked_lines: usize,
    pub last_entry_id: Option<String>,
}

/// A message as it is handed to the reader.
#[derive(Debug)]
pub struct TeamInboxMessage {
    pub id: String,
    pub created_at: i64,
    pub from_thread_id: String,
    pub from_name: Option<String>,
    pub input_items: Vec<UserInput>,
    pub prompt: String,
}

impl From<TeamInboxEntry> for TeamInboxMessage {
    fn from(value: TeamInboxEntry) -> (r: Self) {
        TeamInboxMessage {
            id: value.id,
            created_at: value.created_at,
            from_thread_id: value.from_thread_id,
            from_name: value.from_name,
            input_items: value.input_items,
            prompt: value.prompt,
        }
    }
}

impl vstd::std_specs::convert::FromSpecImpl<TeamInboxEntry> for TeamInboxMessage {
    open spec fn obeys_from_spec() -> bool {
        true
    }

    open spec fn from_spec(value: TeamInboxEntry) -> Self {
        TeamInboxMessage {
            id: value.id,
            created_at: value.created_at,
            from_thread_id: value.from_thread_id,
            from_name: value.from_name,
            input_items: value.input_items,
            prompt: value.prompt,
        }
    }
}

/// The number of messages a pop hands out when none is asked for.
pub const DEFAULT_INBOX_POP_LIMIT: usize = 50;

/// The most messages a pop hands out.
pub const MAX_INBOX_POP_LIMIT: usize = 500;

/// The pop limit used: the requested one, or the default, clamped to `1..=500`.
pub fn pop_limit(limit: Option<usize>) -> (r: usize)
    ensures
        r == match limit {
            Some(l) => if l < 1 {
                1
            } else if l > MAX_INBOX_POP_LIMIT {
                MAX_INBOX_POP_LIMIT
            } else {
                l
            },
            None => DEFAULT_INBOX_POP_LIMIT,
        },
{
    match limit {
        Some(l) => if l < 1 {
            1
        } else if l > MAX_INBOX_POP_LIMIT {
            MAX_INBOX_POP_LIMIT
        } else {
            l
        },
        None => DEFAULT_INBOX_POP_LIMIT,
    }
}

/// How many lines a pop reads from a log of `len` lines with `acked` of them acknowledged: the
/// unacknowledged ones, at most `limit` of them, and at least one when there is one.
pub open spec fn spec_pop_count(acked: nat, len: nat, limit: nat) -> nat {
    if acked >= len {
        0
    } else {
        let want: nat = if limit == 0 {
            1
        } else {
            limit
        };
        if want < len - acked {
            want
        } else {
            (len - acked) as nat
        }
    }
}

/// The lines `start..end` that a pop reads.
pub fn pop_window(acked_lines: usize, line_count: usize, limit: usize) -> (r: (usize, usize))
    ensures
        r.0 == acked_lines,
        r.1 - r.0 == spec_pop_count(acked_lines as nat, line_count as nat, limit as nat),
        r.0 <= r.1,
        r.1 <= line_count || r.1 == r.0,
{
    if acked_lines >= line_count {
        return (acked_lines, acked_lines);
    }
    let want = if limit == 0 {
        1
    } else {
        limit
    };
    let rest = line_count - acked_lines;
    if want < rest {
        (acked_lines, acked_lines + want)
    } else {
        (acked_lines, line_count)
    }
}

/// The token that acknowledges `count` entries read after a cursor at `acked`, the last of
/// which has the identifier `last`.
pub open spec fn spec_pop_token(acked: nat, count: nat, last: Seq<char>) -> (nat, Option<Seq<char>>) {
    ((acked + count) as nat, Some(last))
}

/// Hands out the entries read after the cursor (the lines of `pop_window`, parsed), with the
/// token that acknowledges them; no token when there is nothing.
pub fn pop_inbox_entries(
    team_id: &str,
    receiver_thread_id: &str,
    cursor: &TeamInboxCursor,
    entries: Vec<TeamInboxEntry>,
) -> (r: (Vec<TeamInboxEntry>, Option<TeamInboxAckToken>))
    requires
        cursor.acked_lines + entries@.len() <= usize::MAX,
    ensures
        r.0@ == entries@,
        entries@.len() == 0 ==> r.1 is None,
        entries@.len() > 0 ==> (r.1 matches Some(t) && t.team_id@ == team_id@ && t.thread_id@
            == receiver_thread_id@ && (t.acked_lines as nat, match t.last_entry_id {
            Some(x) => Some(x@),
            None => None,
        }) == spec_pop_token(
            cursor.acked_lines as nat,
            entries@.len(),
            entries@.last().id@,
        )),
{
    if entries.len() == 0 {
        return (entries, None);
    }
    let last = entries[entries.len() - 1].id.clone();
    let token = TeamInboxAckToken {
        team_id: owned(team_id),
        thread_id: owned(receiver_thread_id),
        acked_lines: cursor.acked_lines + entries.len(),
        last_entry_id: Some(last),
    };
    (entries, Some(token))
}

/// What acknowledging does to a cursor.
pub enum AckModel {
    /// The acknowledgement is refused with this message.
    Refused(Seq<char>),
    /// The token acknowledges what is already acknowledged; nothing changes.
    Unchanged,
    /// The cursor moves to this many lines, with this last entry.
    Advanced(nat, Option<Seq<char>>),
}

/// Acknowledging with a token at `tok_acked` lines, whose last entry is `tok_last`, an inbox
/// whose cursor is at `cur_acked` lines, where `entry` is the identifier of the entry on line
/// `tok_acked - 1` (none when the log has no such line). A token behind the cursor is refused;
/// one at the cursor changes nothing; one ahead of it must name the entry on its last line.
pub open spec fn spec_ack(
    cur_acked: nat,
    tok_acked: nat,
    tok_last: Option<Seq<char>>,
    entry: Option<Seq<char>>,
) -> AckModel {
    if tok_acked < cur_acked {
        AckModel::Refused(
            "inbox ack is not monotonic (current="@ + decimal(cur_acked) + ", requested="@
                + decimal(tok_acked) + ")"@,
        )
    } else if tok_acked == cur_acked {
        AckModel::Unchanged
    } else if tok_last is None {
        AckModel::Refused("ack_token missing last_entry_id"@)
    } else if entry is None {
        AckModel::Refused("ack_token references missing inbox entry"@)
    } else if entry != tok_last {
        AckModel::Refused("ack_token last_entry_id mismatch"@)
    } else {
        AckModel::Advanced(tok_acked, tok_last)
    }
}

/// The view of an optional identifier.
pub open spec fn id_view(s: Option<String>) -> Option<Seq<char>> {
    match s {
        Some(x) => Some(x@),
        None => None,
    }
}

/// The line whose entry an acknowledgement must check, when it must check one.
pub fn ack_entry_line(cursor: &TeamInboxCursor, token: &TeamInboxAckToken) -> (r: Option<usize>)
    ensures
        r matches Some(i) ==> i + 1 == token.acked_lines,
        r is Some <==> token.acked_lines > cursor.acked_lines && token.last_entry_id is Some,
{
    if token.acked_lines > cursor.acked_lines && token.last_entry_id.is_some() {
        Some(token.acked_lines - 1)
    } else {
        None
    }
}

/// Acknowledges entries of an inbox: the cursor to write, none when nothing changes, or the
/// refusal. `entry_id` is the identifier of the entry on the token's last line (none when the
/// log has no such line); it is read only where `ack_entry_line` names a line.
pub fn ack_inbox(
    cursor: &TeamInboxCursor,
    token: &TeamInboxAckToken,
    entry_id: Option<String>,
) -> (r: Result<Option<TeamInboxCursor>, FunctionCallError>)
    ensures
        match spec_ack(
            cursor.acked_lines as nat,
            token.acked_lines as nat,
            id_view(token.last_entry_id),
            id_view(entry_id),
        ) {
            AckModel::Refused(m) => r matches Err(e) && responds(e, m),
            AckModel::Unchanged => r matches Ok(c) && c is None,
            AckModel::Advanced(n, last) => r matches Ok(c) && c matches Some(nc) && nc.acked_lines
                == n && id_view(nc.last_entry_id) == last,
        },
{
    if token.acked_lines < cursor.acked_lines {
        let mut out = chars_of("inbox ack is not monotonic (current=");
        let cur = usize_to_decimal(cursor.acked_lines);
        push_str(&mut out, cur.as_str());
        push_str(&mut out, ", requested=");
        let req = usize_to_decimal(token.acked_lines);
        push_str(&mut out, req.as_str());
        push_str(&mut out, ")");
        return Err(respond(string_of(out.as_slice())));
    }
    if token.acked_lines == cursor.acked_lines {
        return Ok(None);
    }
    let last = match &token.last_entry_id {
        Some(l) => l,
        None => {
            return Err(respond(owned("ack_token missing last_entry_id")));
        },
    };
    let seen = match &entry_id {
        Some(s) => s,
        None => {
            return Err(respond(owned("ack_token references missing inbox entry")));
        },
    };
    if !str_eq(seen.as_str(), last.as_str()) {
        return Err(respond(owned("ack_token last_entry_id mismatch")));
    }
    Ok(Some(TeamInboxCursor { acked_lines: token.acked_lines, last_entry_id: Some(last.clone()) }))
}

/// The error of a failed inbox step: `failed to <action> inbox for team `<team>` thread
/// `<thread>`: <err>`.
pub fn inbox_error(action: &str, team_id: &str, thread_id: &str, err: &str) -> (e: FunctionCallError)
    ensures
        responds(
            e,
            "failed to "@ + action@ + " inbox for team `"@ + team_id@ + "` thread `"@ + thread_id@
                + "`: "@ + err@,
        ),
{
    let mut out = chars_of("failed to ");
    push_str(&mut out, action);
    push_str(&mut out, " inbox for team `");
    push_str(&mut out, team_id);
    push_str(&mut out, "` thread `");
    push_str(&mut out, thread_id);
    push_str(&mut out, "`: ");
    push_str(&mut out, err);
    respond(string_of(out.as_slice()))
}

/// The entries a pop hands out of a log of entry identifiers, after `acked` acknowledged lines.
pub open spec fn spec_pop(log: Seq<Seq<char>>, acked: nat, limit: nat) -> Seq<Seq<char>> {
    log.subrange(acked as int, (acked + spec_pop_count(acked, log.len(), limit)) as int)
}

/// Reading and acknowledging delivers every message once: acknowledging the token of a pop
/// moves the cursor exactly past the entries handed out; acknowledging it again changes
/// nothing; a token behind the cursor is refused; and the next pop starts right after the
/// entries of the first, so that two pops in turn hand out a contiguous run of the log.
pub proof fn law_inbox_delivers_each_entry_once(
    log: Seq<Seq<char>>,
    acked: nat,
    limit: nat,
    next_limit: nat,
)
    requires
        acked <= log.len(),
    ensures
        ({
            let n = spec_pop_count(acked, log.len(), limit);
            let popped = spec_pop(log, acked, limit);
            n > 0 ==> {
                let (tok_acked, tok_last) = spec_pop_token(acked, n, popped.last());
                &&& spec_ack(acked, tok_acked, tok_last, Some(log[tok_acked - 1]))
                    == AckModel::Advanced(tok_acked, tok_last)
                &&& tok_acked == acked + popped.len()
                &&& spec_ack(tok_acked, tok_acked, tok_last, Some(log[tok_acked - 1]))
                    == AckModel::Unchanged
                &&& spec_ack(tok_acked, acked, None, None) is Refused
                &&& popped + spec_pop(log, tok_acked, next_limit) == log.subrange(
                    acked as int,
                    (tok_acked + spec_pop_count(tok_acked, log.len(), next_limit)) as int,
                )
            }
        }),
{
    let n = spec_pop_count(acked, log.len(), limit);
    if n > 0 {
        let popped = spec_pop(log, acked, limit);
        assert(popped.last() == log[acked + n - 1]);
        let t = (acked + n) as nat;
        let m = spec_pop_count(t, log.len(), next_limit);
        assert(popped + spec_pop(log, t, next_limit) =~= log.subrange(acked as int, (t + m) as int));
    }
}

/// Checks that an acknowledgement token belongs to the caller's inbox in the team: its team
/// and its thread must be the caller's.
pub fn check_ack_token(token: &TeamInboxAckToken, team_id: &str, thread_id: &str) -> (r: Result<
    (),
    FunctionCallError,
>)
    ensures
        token.team_id@ != team_id@ ==> (r matches Err(e) && responds(e, "ack_token team_id mismatch"@)),
        token.team_id@ == team_id@ && token.thread_id@ != thread_id@ ==> (r matches Err(e) && responds(
            e,
            "ack_token thread_id mismatch"@,
        )),
        token.team_id@ == team_id@ && token.thread_id@ == thread_id@ ==> r is Ok,
{
    if !str_eq(token.team_id.as_str(), team_id) {
        return Err(respond(owned("ack_token team_id mismatch")));
    }
    if !str_eq(token.thread_id.as_str(), thread_id) {
        return Err(respond(owned("ack_token thread_id mismatch")));
    }
    Ok(())
}

/// A new entry of a thread's inbox. The identifier and the time are given by the caller.
pub fn new_inbox_entry(
    id: String,
    created_at: i64,
    team_id: &str,
    receiver_thread_id: &str,
    sender_thread_id: &str,
    sender_name: Option<&str>,
    input_items: Vec<UserInput>,
    prompt: &str,
) -> (r: TeamInboxEntry)
    ensures
        r.id == id,
        r.created_at == created_at,
        r.team_id@ == team_id@,
        r.from_thread_id@ == sender_thread_id@,
        match sender_name {
            Some(n) => r.from_name matches Some(f) && f@ == n@,
            None => r.from_name is None,
        },
        r.to_thread_id@ == receiver_thread_id@,
        r.input_items == input_items,
        r.prompt@ == prompt@,
{
    TeamInboxEntry {
        id,
        created_at,
        team_id: owned(team_id),
        from_thread_id: owned(sender_thread_id),
        from_name: match sender_name {
            Some(n) => Some(owned(n)),
            None => None,
        },
        to_thread_id: owned(receiver_thread_id),
        input_items,
        prompt: owned(prompt),
    }
}

} // verus!
