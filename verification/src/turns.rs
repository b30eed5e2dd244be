//! Paging through threads and through the turns of a thread, and the checks of reading and
//! restoring threads, as the app server answers them.
use crate::decimal::{decimal, parse_usize, parses_as_usize, parsed_usize, usize_to_decimal};
use crate::paths::{join, spec_join};
use crate::text::{chars_of, owned, push_str, str_eq, string_of};
use vstd::prelude::*;

verus! {

/// The error code of a request the server refuses.
pub const INVALID_REQUEST_ERROR_CODE: i64 = -32600;

/// The error code of a failure inside the server.
pub const INTERNAL_ERROR_CODE: i64 = -32603;

/// An error answered to a request: its code and message.
#[derive(Debug, PartialEq)]
pub struct JsonRpcError {
    pub code: i64,
    pub message: String,
}

/// `e` is the error with code `code` and message `m`.
pub open spec fn is_error(e: JsonRpcError, code: i64, m: Seq<char>) -> bool {
    e.code == code && e.message@ == m
}

fn error(code: i64, message: String) -> (e: JsonRpcError)
    ensures
        is_error(e, code, message@),
{
    JsonRpcError { code, message }
}

/// The page size of a listing when none is asked for.
pub const THREAD_LIST_DEFAULT_LIMIT: usize = 25;

/// The largest page of a listing.
pub const THREAD_LIST_MAX_LIMIT: usize = 100;

/// A page of the turns of a thread, with the cursors of the next page and of the page before.
#[derive(Debug)]
pub struct ThreadTurnsPage<T> {
    pub data: Vec<T>,
    pub next_cursor: Option<String>,
    pub backwards_cursor: Option<String>,
}

/// The page size of a turn listing: the requested one, or the default, at least 1 and at
/// most the largest page.
pub open spec fn spec_turns_limit(limit: Option<u32>) -> nat {
    let l: nat = match limit {
        Some(l) => l as nat,
        None => THREAD_LIST_DEFAULT_LIMIT as nat,
    };
    let l: nat = if l < 1 {
        1
    } else {
        l
    };
    if l > THREAD_LIST_MAX_LIMIT {
        THREAD_LIST_MAX_LIMIT as nat
    } else {
        l
    }
}

/// The page size of a turn listing.
pub fn turns_limit(limit: Option<u32>) -> (r: usize)
    ensures
        r == spec_turns_limit(limit),
        1 <= r <= THREAD_LIST_MAX_LIMIT,
{
    let l: u32 = match limit {
        Some(l) => l,
        None => 25,
    };
    let l: u32 = if l < 1 {
        1
    } else {
        l
    };
    if l > 100 {
        THREAD_LIST_MAX_LIMIT
    } else {
        l as usize
    }
}

/// The window of a turn listing over `total` turns: where it starts (at the cursor, else at
/// the start), where it ends (a page later, at most at the end), and the cursors of the next
/// page (its end, when turns remain) and of the page before (a page back, at least at the
/// start, when it does not start at the start). A cursor that is not a number, or that is
/// past the end, is refused.
pub open spec fn spec_turns_window(cursor: Option<Seq<char>>, limit: nat, total: nat) -> Result<
    (nat, nat, Option<nat>, Option<nat>),
    Seq<char>,
> {
    let start: Option<nat> = match cursor {
        None => Some(0),
        Some(c) => if parses_as_usize(c) {
            Some(parsed_usize(c))
        } else {
            None
        },
    };
    match start {
        None => Err("invalid cursor: "@ + cursor->0),
        Some(start) => if start > total {
            Err("cursor "@ + decimal(start) + " exceeds total turns "@ + decimal(total))
        } else {
            let end: nat = if start + limit < total {
                (start + limit) as nat
            } else {
                total
            };
            let back: nat = if start >= limit {
                (start - limit) as nat
            } else {
                0
            };
            Ok(
                (
                    start,
                    end,
                    if end < total {
                        Some(end)
                    } else {
                        None
                    },
                    if start > 0 {
                        Some(back)
                    } else {
                        None
                    },
                ),
            )
        },
    }
}

/// The view of an optional text.
pub open spec fn text_opt(s: Option<String>) -> Option<Seq<char>> {
    match s {
        Some(x) => Some(x@),
        None => None,
    }
}

/// Pages through the turns of a thread. At most one of the two cursors may be given; the one
/// given says where the page starts.
pub fn list_turns<T>(
    turns: Vec<T>,
    cursor: Option<String>,
    backwards_cursor: Option<String>,
    limit: Option<u32>,
) -> (r: Result<ThreadTurnsPage<T>, JsonRpcError>)
    ensures
        cursor is Some && backwards_cursor is Some ==> (r matches Err(e) && is_error(
            e,
            INVALID_REQUEST_ERROR_CODE,
            "cursor and backwardsCursor are mutually exclusive"@,
        )),
        !(cursor is Some && backwards_cursor is Some) ==> ({
            let given = if cursor is Some {
                cursor
            } else {
                backwards_cursor
            };
            match spec_turns_window(text_opt(given), spec_turns_limit(limit), turns@.len()) {
                Err(m) => r matches Err(e) && is_error(e, INVALID_REQUEST_ERROR_CODE, m),
                Ok((start, end, next, back)) => r matches Ok(p) && p.data@ == turns@.subrange(
                    start as int,
                    end as int,
                ) && match next {
                    Some(n) => p.next_cursor matches Some(c) && c@ == decimal(n),
                    None => p.next_cursor is None,
                } && match back {
                    Some(b) => p.backwards_cursor matches Some(c) && c@ == decimal(b),
                    None => p.backwards_cursor is None,
                },
            }
        }),
{
    if cursor.is_some() && backwards_cursor.is_some() {
        return Err(
            error(
                INVALID_REQUEST_ERROR_CODE,
                owned("cursor and backwardsCursor are mutually exclusive"),
            ),
        );
    }
    let total = turns.len();
    let limit = turns_limit(limit);
    let given = match cursor {
        Some(c) => Some(c),
        None => backwards_cursor,
    };
    let start = match &given {
        Some(value) => match parse_usize(value.as_str()) {
            Some(n) => n,
            None => {
                let mut m = chars_of("invalid cursor: ");
                push_str(&mut m, value.as_str());
                return Err(error(INVALID_REQUEST_ERROR_CODE, string_of(m.as_slice())));
            },
        },
        None => 0,
    };
    if start > total {
        let mut m = chars_of("cursor ");
        let s = usize_to_decimal(start);
        push_str(&mut m, s.as_str());
        push_str(&mut m, " exceeds total turns ");
        let t = usize_to_decimal(total);
        push_str(&mut m, t.as_str());
        return Err(error(INVALID_REQUEST_ERROR_CODE, string_of(m.as_slice())));
    }
    let end = if start < total && limit < total - start {
        start + limit
    } else {
        total
    };
    let mut turns = turns;
    let ghost all = turns@;
    let mut data = turns.split_off(start);
    data.truncate(end - start);
    assert(data@ =~= all.subrange(start as int, end as int));
    let next_cursor = if end < total {
        Some(usize_to_decimal(end))
    } else {
        None
    };
    let backwards_cursor = if start > 0 {
        let back = if start >= limit {
            start - limit
        } else {
            0
        };
        Some(usize_to_decimal(back))
    } else {
        None
    };
    Ok(ThreadTurnsPage { data, next_cursor, backwards_cursor })
}

/// Pages meet without a gap or an overlap: the page at a page's next cursor starts where the
/// page ended, and the page at a page's backwards cursor ends where the page started (or, a
/// page from the start, covers all of what came before).
pub proof fn law_turn_pages_meet(start: nat, limit: nat, total: nat)
    requires
        1 <= limit,
        start <= total,
        total <= usize::MAX,
    ensures
        ({
            let w = spec_turns_window(Some(decimal(start)), limit, total);
            &&& w matches Ok((s, e, next, back)) && s == start
            &&& w matches Ok((s, e, Some(n), _)) ==> spec_turns_window(
                Some(decimal(n)),
                limit,
                total,
            ) matches Ok((s2, _, _, _)) && s2 == e
            &&& w matches Ok((s, e, _, Some(b))) ==> spec_turns_window(
                Some(decimal(b)),
                limit,
                total,
            ) matches Ok((s2, e2, _, _)) && s2 == b && (start >= limit ==> e2 == start) && (start
                < limit ==> e2 >= start)
        }),
{
    lemma_decimal_parses(start);
    let w = spec_turns_window(Some(decimal(start)), limit, total);
    if let Ok((s, e, next, back)) = w {
        if let Some(n) = next {
            lemma_decimal_parses(n);
        }
        if let Some(b) = back {
            lemma_decimal_parses(b);
        }
    }
}

proof fn lemma_decimal_parses(n: nat)
    requires
        n <= usize::MAX,
    ensures
        parses_as_usize(decimal(n)),
        parsed_usize(decimal(n)) == n,
{
    crate::decimal::lemma_decimal_round_trip(n);
    let d = decimal(n);
    assert(d.len() > 0) by {
        reveal_with_fuel(decimal, 2);
        if n >= 10 {
            assert(d == decimal(n / 10).push(crate::decimal::digit_char(n % 10)));
        }
    }
    assert(crate::decimal::is_digit(d[0]));
    assert(d[0] != '+') by {
        reveal(crate::decimal::is_digit);
    }
    assert(crate::decimal::usize_body(d) == d);
}

/// Which model providers a thread listing keeps: none asked for means the configured one; an
/// empty list means every provider (no filter).
pub fn model_provider_filter(providers: Option<Vec<String>>, default_provider: &str) -> (r: Option<
    Vec<String>,
>)
    ensures
        match providers {
            Some(p) => if p@.len() == 0 {
                r is None
            } else {
                r == Some(p)
            },
            None => r matches Some(v) && v@.len() == 1 && v@[0]@ == default_provider@,
        },
{
    match providers {
        Some(p) => {
            if p.len() == 0 {
                None
            } else {
                Some(p)
            }
        },
        None => {
            let mut v: Vec<String> = Vec::new();
            v.push(owned(default_provider));
            Some(v)
        },
    }
}

/// The size of the next page to fetch when `remaining` threads are still wanted.
pub fn thread_page_size(remaining: usize) -> (r: usize)
    ensures
        r == if remaining < THREAD_LIST_MAX_LIMIT {
            remaining
        } else {
            THREAD_LIST_MAX_LIMIT
        },
{
    if remaining < THREAD_LIST_MAX_LIMIT {
        remaining
    } else {
        THREAD_LIST_MAX_LIMIT
    }
}

/// The positions of the accepted items, in order.
pub open spec fn accepted_positions(a: Seq<bool>) -> Seq<usize>
    decreases a.len(),
{
    if a.len() == 0 {
        seq![]
    } else if a.last() {
        accepted_positions(a.drop_last()).push((a.len() - 1) as usize)
    } else {
        accepted_positions(a.drop_last())
    }
}

proof fn lemma_positions_prefix(a: Seq<bool>, j: int)
    requires
        0 <= j <= a.len(),
    ensures
        accepted_positions(a.take(j)).len() <= accepted_positions(a).len(),
        accepted_positions(a).take(accepted_positions(a.take(j)).len() as int) == accepted_positions(
            a.take(j),
        ),
    decreases a.len(),
{
    if j == a.len() {
        assert(a.take(j) =~= a);
        assert(accepted_positions(a).take(accepted_positions(a).len() as int) =~= accepted_positions(a));
    } else {
        let d = a.drop_last();
        assert(a.take(j) =~= d.take(j));
        lemma_positions_prefix(d, j);
        let n = accepted_positions(d.take(j)).len();
        assert(accepted_positions(a).take(n as int) =~= accepted_positions(d).take(n as int));
    }
}

/// The positions of the items of a fetched page that a listing keeps: the accepted ones, in
/// order, up to the `remaining` wanted.
pub fn take_accepted(accepted: &Vec<bool>, remaining: usize) -> (r: Vec<usize>)
    requires
        remaining > 0,
    ensures
        r@.len() == if accepted_positions(accepted@).len() < remaining {
            accepted_positions(accepted@).len()
        } else {
            remaining as nat
        },
        r@ == accepted_positions(accepted@).take(r@.len() as int),
{
    let mut out: Vec<usize> = Vec::new();
    let mut i: usize = 0;
    while i < accepted.len()
        invariant
            i <= accepted@.len(),
            out@.len() < remaining,
            out@ == accepted_positions(accepted@.take(i as int)),
        decreases accepted@.len() - i,
    {
        assert(accepted@.take(i + 1).drop_last() =~= accepted@.take(i as int));
        assert(accepted@.take(i + 1).last() == accepted@[i as int]);
        if accepted[i] {
            out.push(i);
            if out.len() >= remaining {
                proof {
                    lemma_positions_prefix(accepted@, i + 1);
                }
                return out;
            }
        }
        i = i + 1;
    }
    assert(accepted@.take(accepted@.len() as int) =~= accepted@);
    assert(out@ =~= accepted_positions(accepted@).take(out@.len() as int));
    out
}

/// What a thread listing does after a fetched page.
#[derive(Debug)]
pub enum ListStep {
    /// The listing is complete; its next cursor, if any.
    Done(Option<String>),
    /// Fetch the next page at this cursor.
    Continue(String),
}

/// After a page: once the wanted number of threads is reached, the listing ends with the
/// page's next cursor; when the page has no next cursor, it ends without one; when the next
/// cursor is the one just used, it ends without one (the store made no progress); otherwise
/// it goes on at the next cursor.
pub fn after_thread_page(
    requested: usize,
    collected: usize,
    page_next: Option<String>,
    last_cursor: &Option<String>,
) -> (r: ListStep)
    ensures
        collected >= requested ==> (r matches ListStep::Done(c) && text_opt(c) == text_opt(page_next)),
        collected < requested ==> match page_next {
            None => r matches ListStep::Done(c) && c is None,
            Some(n) => if text_opt(*last_cursor) == Some(n@) {
                r matches ListStep::Done(c) && c is None
            } else {
                r matches ListStep::Continue(c) && c@ == n@
            },
        },
{
    if collected >= requested {
        return ListStep::Done(page_next);
    }
    match page_next {
        None => ListStep::Done(None),
        Some(n) => {
            let same = match last_cursor {
                Some(l) => str_eq(l.as_str(), n.as_str()),
                None => false,
            };
            if same {
                ListStep::Done(None)
            } else {
                ListStep::Continue(n)
            }
        },
    }
}

/// The directory of archived rollouts under the Codex home.
pub const ARCHIVED_SESSIONS_SUBDIR: &'static str = "archived_sessions";

/// The directory of live rollouts under the Codex home.
pub const SESSIONS_SUBDIR: &'static str = "sessions";

/// Checks that an archived rollout's file belongs to the thread: it must have a file name,
/// which must end with `<thread>.jsonl`. `display` is how the rollout's path is shown.
pub fn check_archived_file_name(file_name: &Option<String>, thread_id: &str, display: &str) -> (r: Result<
    (),
    JsonRpcError,
>)
    ensures
        match file_name {
            None => r matches Err(e) && is_error(
                e,
                INVALID_REQUEST_ERROR_CODE,
                "rollout path `"@ + display@ + "` missing file name"@,
            ),
            Some(f) => if f@.len() >= (thread_id@ + ".jsonl"@).len() && f@.subrange(
                f@.len() - (thread_id@ + ".jsonl"@).len(),
                f@.len() as int,
            ) == thread_id@ + ".jsonl"@ {
                r is Ok
            } else {
                r matches Err(e) && is_error(
                    e,
                    INVALID_REQUEST_ERROR_CODE,
                    "rollout path `"@ + display@ + "` does not match thread id "@ + thread_id@,
                )
            },
        },
{
    match file_name {
        None => {
            let mut m = chars_of("rollout path `");
            push_str(&mut m, display);
            push_str(&mut m, "` missing file name");
            Err(error(INVALID_REQUEST_ERROR_CODE, string_of(m.as_slice())))
        },
        Some(f) => {
            let mut suffix = chars_of(thread_id);
            push_str(&mut suffix, ".jsonl");
            let fv = chars_of(f.as_str());
            if fv.len() >= suffix.len() && crate::text::chars_occur_at(
                fv.as_slice(),
                suffix.as_slice(),
                fv.len() - suffix.len(),
            ) {
                proof {
                    assert(fv@.subrange(fv@.len() - suffix@.len(), fv@.len() as int) =~= suffix@);
                }
                Ok(())
            } else {
                proof {
                    if fv@.len() >= suffix@.len() {
                        let a = fv@.subrange(fv@.len() - suffix@.len(), fv@.len() as int);
                        if a == suffix@ {
                            assert(crate::text::occurs_at(fv@, suffix@, fv@.len() - suffix@.len()));
                        }
                    }
                }
                let mut m = chars_of("rollout path `");
                push_str(&mut m, display);
                push_str(&mut m, "` does not match thread id ");
                push_str(&mut m, thread_id);
                Err(error(INVALID_REQUEST_ERROR_CODE, string_of(m.as_slice())))
            }
        },
    }
}

/// Where an unarchived rollout goes: `<home>/sessions/<year>/<month>/<day>/<file>`.
pub fn restored_rollout_path(codex_home: &str, year: &str, month: &str, day: &str, file_name: &str) -> (r:
    String)
    ensures
        r@ == spec_join(
            spec_join(spec_join(spec_join(spec_join(codex_home@, "sessions"@), year@), month@), day@),
            file_name@,
        ),
{
    let a = join(codex_home, SESSIONS_SUBDIR);
    let b = join(a.as_str(), year);
    let c = join(b.as_str(), month);
    let d = join(c.as_str(), day);
    join(d.as_str(), file_name)
}

/// Whether reading a thread must look for its rollout file: when the state database gave no
/// path, or when the turns are wanted.
pub fn needs_rollout_lookup(has_db_path: bool, include_turns: bool) -> (r: bool)
    ensures
        r == (!has_db_path || include_turns),
{
    !has_db_path || include_turns
}

/// What looking for a thread's rollout file found.
#[derive(Debug)]
pub enum RolloutLookup {
    Found(String),
    Missing,
    Failed(String),
}

/// The rollout path a read goes on with: the one found; when none is found, the one of the
/// state database unless turns are wanted; a failed lookup is refused with
/// `failed to locate thread id <thread>: <err>`. A thread the database knows whose rollout
/// cannot be found when turns are wanted is an internal error.
pub fn resolve_rollout_path(
    thread_id: &str,
    db_path: Option<String>,
    include_turns: bool,
    lookup: RolloutLookup,
) -> (r: Result<Option<String>, JsonRpcError>)
    ensures
        ({
            let path: Option<Seq<char>> = match lookup {
                RolloutLookup::Found(p) => Some(p@),
                RolloutLookup::Missing => if include_turns {
                    None
                } else {
                    text_opt(db_path)
                },
                RolloutLookup::Failed(_) => None,
            };
            match lookup {
                RolloutLookup::Failed(err) => r matches Err(e) && is_error(
                    e,
                    INVALID_REQUEST_ERROR_CODE,
                    "failed to locate thread id "@ + thread_id@ + ": "@ + err@,
                ),
                _ => if include_turns && path is None && db_path is Some {
                    r matches Err(e) && is_error(
                        e,
                        INTERNAL_ERROR_CODE,
                        "failed to locate rollout for thread "@ + thread_id@,
                    )
                } else {
                    r matches Ok(p) && text_opt(p) == path
                },
            }
        }),
{
    let has_db = db_path.is_some();
    let path = match lookup {
        RolloutLookup::Found(p) => Some(p),
        RolloutLookup::Missing => if include_turns {
            None
        } else {
            db_path
        },
        RolloutLookup::Failed(err) => {
            let mut m = chars_of("failed to locate thread id ");
            push_str(&mut m, thread_id);
            push_str(&mut m, ": ");
            push_str(&mut m, err.as_str());
            return Err(error(INVALID_REQUEST_ERROR_CODE, string_of(m.as_slice())));
        },
    };
    if include_turns && path.is_none() && has_db {
        let mut m = chars_of("failed to locate rollout for thread ");
        push_str(&mut m, thread_id);
        return Err(error(INTERNAL_ERROR_CODE, string_of(m.as_slice())));
    }
    Ok(path)
}

/// The refusal of reading the turns of a thread whose rollout is not readable: a missing file
/// means the thread has no turns yet; other failures are internal.
pub fn turns_read_error(thread_id: &str, rollout_display: &str, not_found: bool, err: &str) -> (e:
    JsonRpcError)
    ensures
        not_found ==> is_error(
            e,
            INVALID_REQUEST_ERROR_CODE,
            "thread "@ + thread_id@
                + " is not materialized yet; includeTurns is unavailable before first user message"@,
        ),
        !not_found ==> is_error(
            e,
            INTERNAL_ERROR_CODE,
            "failed to load rollout `"@ + rollout_display@ + "` for thread "@ + thread_id@ + ": "@
                + err@,
        ),
{
    if not_found {
        let mut m = chars_of("thread ");
        push_str(&mut m, thread_id);
        push_str(&mut m, " is not materialized yet; includeTurns is unavailable before first user message");
        error(INVALID_REQUEST_ERROR_CODE, string_of(m.as_slice()))
    } else {
        let mut m = chars_of("failed to load rollout `");
        push_str(&mut m, rollout_display);
        push_str(&mut m, "` for thread ");
        push_str(&mut m, thread_id);
        push_str(&mut m, ": ");
        push_str(&mut m, err);
        error(INTERNAL_ERROR_CODE, string_of(m.as_slice()))
    }
}

/// The error text of `uuid::Uuid::parse_str` on a text, none when the text is a UUID.
pub uninterp spec fn uuid_parse_error(s: Seq<char>) -> Option<Seq<char>>;

/// Parses a text with `uuid::Uuid::parse_str` and gives the error's text when it fails.
#[verifier::external_body]
fn uuid_error(s: &str) -> (r: Option<String>)
    ensures
        match r {
            Some(e) => uuid_parse_error(s@) == Some(e@),
            None => uuid_parse_error(s@) is None,
        },
{
    uuid::Uuid::parse_str(s).err().map(|e| e.to_string())
}

/// Checks that a thread identifier is a UUID, as a thread's identifier is; otherwise the
/// request is refused with `invalid thread id: <parse error>`.
pub fn check_thread_id(thread_id: &str) -> (r: Result<(), JsonRpcError>)
    ensures
        match uuid_parse_error(thread_id@) {
            None => r is Ok,
            Some(m) => r matches Err(e) && is_error(
                e,
                INVALID_REQUEST_ERROR_CODE,
                "invalid thread id: "@ + m,
            ),
        },
{
    match uuid_error(thread_id) {
        None => Ok(()),
        Some(m) => {
            let mut out = chars_of("invalid thread id: ");
            push_str(&mut out, m.as_str());
            Err(error(INVALID_REQUEST_ERROR_CODE, string_of(out.as_slice())))
        },
    }
}

/// Some kind in `kinds` is `kind`.
pub open spec fn kind_listed(kinds: Seq<String>, kind: Seq<char>) -> bool {
    exists|i: int| 0 <= i < kinds.len() && (#[trigger] kinds[i])@ == kind
}

/// Whether a listing keeps a thread: its source kind must be one of the allowed kinds, when
/// kinds are filtered, and its working directory must match the asked one after normalisation,
/// when one is asked (`cwd_match` is that comparison, none when no directory is asked).
pub fn thread_accepted(source_kind: &str, kind_filter: &Option<Vec<String>>, cwd_match: Option<bool>) -> (r: bool)
    ensures
        r == ((match kind_filter {
            None => true,
            Some(k) => kind_listed(k@, source_kind@),
        }) && (match cwd_match {
            None => true,
            Some(m) => m,
        })),
{
    let kind_ok = match kind_filter {
        None => true,
        Some(kinds) => {
            let mut found = false;
            let mut i: usize = 0;
            while i < kinds.len()
                invariant
                    i <= kinds@.len(),
                    found == exists|j: int| 0 <= j < i && (#[trigger] kinds@[j])@ == source_kind@,
                decreases kinds@.len() - i,
            {
                if str_eq(kinds[i].as_str(), source_kind) {
                    found = true;
                }
                i = i + 1;
            }
            found
        },
    };
    kind_ok && match cwd_match {
        None => true,
        Some(m) => m,
    }
}

/// The cursor a listing starts from: none when none is given; the parsed cursor when the given
/// one parses (`parsed` is what parsing it gave); otherwise the request is refused with
/// `invalid cursor: <cursor>`.
pub fn start_cursor<C>(cursor: &Option<String>, parsed: Option<C>) -> (r: Result<Option<C>, JsonRpcError>)
    ensures
        match cursor {
            None => r matches Ok(c) && c is None,
            Some(text) => match parsed {
                Some(p) => r matches Ok(c) && c == Some(p),
                None => r matches Err(e) && is_error(
                    e,
                    INVALID_REQUEST_ERROR_CODE,
                    "invalid cursor: "@ + text@,
                ),
            },
        },
{
    match cursor {
        None => Ok(None),
        Some(text) => match parsed {
            Some(p) => Ok(Some(p)),
            None => {
                let mut out = chars_of("invalid cursor: ");
                push_str(&mut out, text.as_str());
                Err(error(INVALID_REQUEST_ERROR_CODE, string_of(out.as_slice())))
            },
        },
    }
}

/// A path segment that names a component: not empty and not `.`.
pub open spec fn keeps_segment(seg: Seq<char>) -> bool {
    seg.len() > 0 && seg != "."@
}

/// `done` with the segment `cur` closed: kept when it names a component.
pub open spec fn close_segment(done: Seq<Seq<char>>, cur: Seq<char>) -> Seq<Seq<char>> {
    if keeps_segment(cur) {
        done.push(cur)
    } else {
        done
    }
}

/// The named components of `rest`, after the components `done` and the open segment `cur`.
pub open spec fn scan_components(done: Seq<Seq<char>>, cur: Seq<char>, rest: Seq<char>) -> Seq<
    Seq<char>,
>
    decreases rest.len(),
{
    if rest.len() == 0 {
        close_segment(done, cur)
    } else if rest[0] == '/' {
        scan_components(close_segment(done, cur), seq![], rest.drop_first())
    } else {
        scan_components(done, cur.push(rest[0]), rest.drop_first())
    }
}

/// The components of a Unix path as `Path::components` reads them: the root (`/`) of an
/// absolute path, or `.` for a path that starts with `./` or is `.`, then the segments between
/// slashes, leaving out empty ones and `.`.
pub open spec fn path_components(p: Seq<char>) -> Seq<Seq<char>> {
    let head: Seq<Seq<char>> = if p.len() > 0 && p[0] == '/' {
        seq!["/"@]
    } else if p == "."@ || (p.len() >= 2 && p[0] == '.' && p[1] == '/') {
        seq!["."@]
    } else {
        seq![]
    };
    head + scan_components(seq![], seq![], p)
}

/// `p` lies under `base`: the components of `base` begin those of `p` (`Path::starts_with`).
pub open spec fn path_under(p: Seq<char>, base: Seq<char>) -> bool {
    let a = path_components(p);
    let b = path_components(base);
    b.len() <= a.len() && a.take(b.len() as int) == b
}

fn components_of(p: &str) -> (r: Vec<Vec<char>>)
    ensures
        r@.len() == path_components(p@).len(),
        forall|i: int| 0 <= i < r@.len() ==> (#[trigger] r@[i])@ == path_components(p@)[i],
{
    let v = chars_of(p);
    let mut out: Vec<Vec<char>> = Vec::new();
    let ghost mut head: Seq<Seq<char>> = seq![];
    if v.len() > 0 && v[0] == '/' {
        out.push(vec!['/']);
        proof {
            head = seq!["/"@];
            reveal_strlit("/");
        }
    } else if (v.len() == 1 && v[0] == '.') || (v.len() >= 2 && v[0] == '.' && v[1] == '/') {
        out.push(vec!['.']);
        proof {
            head = seq!["."@];
            reveal_strlit(".");
            assert(v@.len() == 1 && v@[0] == '.' ==> v@ =~= "."@);
        }
    } else {
        proof {
            reveal_strlit(".");
            if v@ == "."@ {
                assert(v@.len() == 1 && v@[0] == '.');
            }
        }
    }
    let ghost start = out@.len();
    let mut cur: Vec<char> = Vec::new();
    let mut i: usize = 0;
    proof {
        reveal_strlit("/");
        reveal_strlit(".");
        assert(v@.skip(0) =~= v@);
        assert(Seq::new((out@.len() - start) as nat, |k: int| out@[k + start]@) =~= Seq::<Seq<char>>::empty());
        assert(cur@ =~= Seq::<char>::empty());
        let h: Seq<Seq<char>> = if p@.len() > 0 && p@[0] == '/' {
            seq!["/"@]
        } else if p@ == "."@ || (p@.len() >= 2 && p@[0] == '.' && p@[1] == '/') {
            seq!["."@]
        } else {
            seq![]
        };
        assert(h == head);
        assert(head + scan_components(seq![], seq![], p@) == path_components(p@));
    }
    while i < v.len()
        invariant
            i <= v@.len(),
            v@ == p@,
            start == head.len(),
            out@.len() >= start,
            forall|k: int| 0 <= k < start ==> (#[trigger] out@[k])@ == head[k],
            head + scan_components(
                Seq::new((out@.len() - start) as nat, |k: int| out@[k + start]@),
                cur@,
                v@.skip(i as int),
            ) == path_components(p@),
        decreases v@.len() - i,
    {
        assert(v@.skip(i as int).drop_first() =~= v@.skip(i + 1));
        assert(v@.skip(i as int)[0] == v@[i as int]);
        let ghost done = Seq::new((out@.len() - start) as nat, |k: int| out@[k + start]@);
        if v[i] == '/' {
            let keep = cur.len() > 0 && !(cur.len() == 1 && cur[0] == '.');
            proof {
                reveal_strlit(".");
                assert(keep == keeps_segment(cur@)) by {
                    if cur@.len() == 1 && cur@[0] == '.' {
                        assert(cur@ =~= "."@);
                    }
                }
            }
            if keep {
                out.push(cur);
                proof {
                    assert(Seq::new((out@.len() - start) as nat, |k: int| out@[k + start]@) =~= done.push(out@.last()@));
                }
            } else {
                proof {
                    assert(Seq::new((out@.len() - start) as nat, |k: int| out@[k + start]@) =~= done);
                }
            }
            cur = Vec::new();
        } else {
            cur.push(v[i]);
            proof {
                assert(Seq::new((out@.len() - start) as nat, |k: int| out@[k + start]@) =~= done);
            }
        }
        i = i + 1;
    }
    let ghost done = Seq::new((out@.len() - start) as nat, |k: int| out@[k + start]@);
    let keep = cur.len() > 0 && !(cur.len() == 1 && cur[0] == '.');
    proof {
        reveal_strlit(".");
        assert(keep == keeps_segment(cur@)) by {
            if cur@.len() == 1 && cur@[0] == '.' {
                assert(cur@ =~= "."@);
            }
        }
        assert(v@.skip(v@.len() as int).len() == 0);
    }
    if keep {
        out.push(cur);
        proof {
            assert(Seq::new((out@.len() - start) as nat, |k: int| out@[k + start]@) =~= done.push(out@.last()@));
        }
    } else {
        proof {
            assert(Seq::new((out@.len() - start) as nat, |k: int| out@[k + start]@) =~= done);
        }
    }
    proof {
        let fin = Seq::new((out@.len() - start) as nat, |k: int| out@[k + start]@);
        assert(head + fin == path_components(p@));
        assert forall|i: int| 0 <= i < out@.len() implies (#[trigger] out@[i])@ == path_components(p@)[i] by {
            if i >= start {
                assert(fin[i - start] == out@[i]@);
            }
        }
    }
    out
}

/// Whether the path `p` lies under the directory `base`, component by component.
pub fn path_is_under(p: &str, base: &str) -> (r: bool)
    ensures
        r == path_under(p@, base@),
{
    let a = components_of(p);
    let b = components_of(base);
    if b.len() > a.len() {
        return false;
    }
    let mut i: usize = 0;
    while i < b.len()
        invariant
            b@.len() <= a@.len(),
            i <= b@.len(),
            a@.len() == path_components(p@).len(),
            b@.len() == path_components(base@).len(),
            forall|k: int| 0 <= k < a@.len() ==> (#[trigger] a@[k])@ == path_components(p@)[k],
            forall|k: int| 0 <= k < b@.len() ==> (#[trigger] b@[k])@ == path_components(base@)[k],
            forall|k: int| 0 <= k < i ==> path_components(p@)[k] == path_components(base@)[k],
        decreases b@.len() - i,
    {
        if !crate::text::chars_eq(a[i].as_slice(), b[i].as_slice()) {
            proof {
                assert(path_components(p@).take(b@.len() as int)[i as int] == path_components(p@)[i as int]);
            }
            return false;
        }
        i = i + 1;
    }
    proof {
        assert(path_components(p@).take(b@.len() as int) =~= path_components(base@));
    }
    true
}

/// Checks that an archived rollout lies in the archived directory, comparing the canonical
/// forms: `canonical_path` is the rollout's canonical path (none when it could not be
/// resolved) and `canonical_dir` the archived directory's. Otherwise the request is refused
/// with ``rollout path `<display>` must be in archived directory``.
pub fn check_in_archived_dir(canonical_path: &Option<String>, canonical_dir: &str, display: &str) -> (r:
    Result<(), JsonRpcError>)
    ensures
        (match canonical_path {
            Some(p) => path_under(p@, canonical_dir@),
            None => false,
        }) ==> r is Ok,
        !(match canonical_path {
            Some(p) => path_under(p@, canonical_dir@),
            None => false,
        }) ==> (r matches Err(e) && is_error(
            e,
            INVALID_REQUEST_ERROR_CODE,
            "rollout path `"@ + display@ + "` must be in archived directory"@,
        )),
{
    let inside = match canonical_path {
        Some(p) => path_is_under(p.as_str(), canonical_dir),
        None => false,
    };
    if inside {
        Ok(())
    } else {
        let mut m = chars_of("rollout path `");
        push_str(&mut m, display);
        push_str(&mut m, "` must be in archived directory");
        Err(error(INVALID_REQUEST_ERROR_CODE, string_of(m.as_slice())))
    }
}

} // verus!
