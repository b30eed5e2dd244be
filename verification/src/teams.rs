//! Teams of agents led by a thread: the registry of teams, the members' labels, and the
//! decisions of the team tools (spawning, waiting, closing).
use crate::collab::{respond, responds, FunctionCallError};
use crate::worktree::WorktreeLease;
use crate::text::{chars_of, is_blank_str, owned, push_str, str_eq, string_of, trim, trim_str};
use vstd::prelude::*;

verus! {

/// A member of a team: its name, the agent's thread, and the role it was spawned with.
#[derive(Debug)]
pub struct TeamMember {
    pub name: String,
    pub agent_id: String,
    pub agent_type: Option<String>,
}

/// A team: its members, in the order they were spawned, and when it was created.
#[derive(Debug)]
pub struct TeamRecord {
    pub members: Vec<TeamMember>,
    pub created_at: i64,
}

/// The view of a member: name, agent and role.
pub open spec fn member_view(m: TeamMember) -> (Seq<char>, Seq<char>, Option<Seq<char>>) {
    (m.name@, m.agent_id@, match m.agent_type {
        Some(t) => Some(t@),
        None => None,
    })
}

/// The view of a list of members.
pub open spec fn members_view(v: Seq<TeamMember>) -> Seq<(Seq<char>, Seq<char>, Option<Seq<char>>)> {
    v.map_values(|m: TeamMember| member_view(m))
}

/// The view of a team: its members and creation time.
pub open spec fn record_view(r: TeamRecord) -> (Seq<(Seq<char>, Seq<char>, Option<Seq<char>>)>, i64) {
    (members_view(r.members@), r.created_at)
}

fn clone_opt(s: &Option<String>) -> (r: Option<String>)
    ensures
        r == *s,
{
    match s {
        Some(x) => Some(x.clone()),
        None => None,
    }
}

impl TeamMember {
    /// A copy of this member.
    pub fn duplicate(&self) -> (r: TeamMember)
        ensures
            member_view(r) == member_view(*self),
    {
        TeamMember {
            name: self.name.clone(),
            agent_id: self.agent_id.clone(),
            agent_type: clone_opt(&self.agent_type),
        }
    }
}

/// A copy of a list of members.
pub fn duplicate_members(v: &Vec<TeamMember>) -> (r: Vec<TeamMember>)
    ensures
        members_view(r@) == members_view(v@),
{
    let mut out: Vec<TeamMember> = Vec::new();
    let mut i: usize = 0;
    while i < v.len()
        invariant
            i <= v@.len(),
            members_view(out@) == members_view(v@.take(i as int)),
        decreases v@.len() - i,
    {
        let m = v[i].duplicate();
        let ghost prev = out@;
        out.push(m);
        assert(members_view(out@) =~= members_view(prev).push(member_view(v@[i as int])));
        assert(members_view(v@.take(i + 1)) =~= members_view(v@.take(i as int)).push(
            member_view(v@[i as int]),
        ));
        i = i + 1;
    }
    assert(v@.take(v@.len() as int) =~= v@);
    out
}

impl TeamRecord {
    /// A copy of this team.
    pub fn duplicate(&self) -> (r: TeamRecord)
        ensures
            record_view(r) == record_view(*self),
    {
        TeamRecord { members: duplicate_members(&self.members), created_at: self.created_at }
    }
}

/// The label of a member in events: `<name> [<role>]`, where a missing or blank role reads
/// `default`.
pub open spec fn spec_member_label(m: (Seq<char>, Seq<char>, Option<Seq<char>>)) -> Seq<char> {
    let role = match m.2 {
        Some(t) => if trim(t).len() > 0 {
            trim(t)
        } else {
            "default"@
        },
        None => "default"@,
    };
    m.0 + " ["@ + role + "]"@
}

/// The labels of members, each with the member's agent, in member order.
pub fn team_member_names(members: &Vec<TeamMember>) -> (r: Vec<(String, String)>)
    ensures
        r@.len() == members@.len(),
        forall|i: int|
            0 <= i < r@.len() ==> (#[trigger] r@[i]).0@ == members@[i].agent_id@ && r@[i].1@
                == spec_member_label(member_view(members@[i])),
{
    let mut out: Vec<(String, String)> = Vec::new();
    let mut i: usize = 0;
    while i < members.len()
        invariant
            i <= members@.len(),
            out@.len() == i,
            forall|j: int|
                0 <= j < i ==> (#[trigger] out@[j]).0@ == members@[j].agent_id@ && out@[j].1@
                    == spec_member_label(member_view(members@[j])),
        decreases members@.len() - i,
    {
        let m = &members[i];
        let role = match &m.agent_type {
            Some(t) => {
                if is_blank_str(t.as_str()) {
                    owned("default")
                } else {
                    trim_str(t.as_str())
                }
            },
            None => owned("default"),
        };
        let mut label = chars_of(m.name.as_str());
        push_str(&mut label, " [");
        push_str(&mut label, role.as_str());
        push_str(&mut label, "]");
        out.push((m.agent_id.clone(), string_of(label.as_slice())));
        i = i + 1;
    }
    out
}

/// The first member named `name`, among members.
pub open spec fn spec_find_member(
    members: Seq<(Seq<char>, Seq<char>, Option<Seq<char>>)>,
    name: Seq<char>,
) -> Option<int>
    decreases members.len(),
{
    if members.len() == 0 {
        None
    } else if members[0].0 == name {
        Some(0)
    } else {
        match spec_find_member(members.drop_first(), name) {
            Some(i) => Some(i + 1),
            None => None,
        }
    }
}

proof fn lemma_find_member_at(
    members: Seq<(Seq<char>, Seq<char>, Option<Seq<char>>)>,
    name: Seq<char>,
    i: int,
)
    requires
        0 <= i < members.len(),
        members[i].0 == name,
        forall|j: int| 0 <= j < i ==> (#[trigger] members[j]).0 != name,
    ensures
        spec_find_member(members, name) == Some(i),
    decreases i,
{
    if i > 0 {
        let r = members.drop_first();
        assert forall|j: int| 0 <= j < i - 1 implies (#[trigger] r[j]).0 != name by {
            assert(r[j] == members[j + 1]);
        }
        lemma_find_member_at(r, name, i - 1);
    }
}

proof fn lemma_find_member_none(members: Seq<(Seq<char>, Seq<char>, Option<Seq<char>>)>, name: Seq<char>)
    requires
        forall|j: int| 0 <= j < members.len() ==> (#[trigger] members[j]).0 != name,
    ensures
        spec_find_member(members, name) is None,
    decreases members.len(),
{
    if members.len() > 0 {
        let r = members.drop_first();
        assert forall|j: int| 0 <= j < r.len() implies (#[trigger] r[j]).0 != name by {
            assert(r[j] == members[j + 1]);
        }
        lemma_find_member_none(r, name);
    }
}

/// The member of a team named `member_name` (trimmed; a blank name is refused), or
/// `member `<name>` not found in team `<team>``.
pub fn find_team_member(team: &TeamRecord, team_id: &str, member_name: &str) -> (r: Result<
    TeamMember,
    FunctionCallError,
>)
    ensures
        trim(member_name@).len() == 0 ==> (r matches Err(e) && responds(
            e,
            "member_name must be non-empty"@,
        )),
        trim(member_name@).len() > 0 ==> match spec_find_member(
            members_view(team.members@),
            trim(member_name@),
        ) {
            Some(i) => r matches Ok(m) && member_view(m) == member_view(team.members@[i]),
            None => r matches Err(e) && responds(
                e,
                "member `"@ + trim(member_name@) + "` not found in team `"@ + team_id@ + "`"@,
            ),
        },
{
    proof {
        reveal_strlit("member_name");
        reveal_strlit(" must be non-empty");
        reveal_strlit("member_name must be non-empty");
        assert(("member_name"@ + " must be non-empty"@) =~= "member_name must be non-empty"@);
    }
    let name = match crate::collab::required_non_empty(member_name, "member_name") {
        Ok(n) => n,
        Err(e) => {
            return Err(e);
        },
    };
    let ghost mv = members_view(team.members@);
    assert(name@ == trim(member_name@));
    assert(trim(member_name@).len() > 0);
    let mut i: usize = 0;
    while i < team.members.len()
        invariant
            i <= team.members@.len(),
            mv == members_view(team.members@),
            name@ == trim(member_name@),
            trim(member_name@).len() > 0,
            forall|j: int| 0 <= j < i ==> (#[trigger] mv[j]).0 != name@,
        decreases team.members@.len() - i,
    {
        if str_eq(team.members[i].name.as_str(), name.as_str()) {
            proof {
                lemma_find_member_at(mv, name@, i as int);
            }
            return Ok(team.members[i].duplicate());
        }
        assert(mv[i as int].0 == team.members@[i as int].name@);
        i = i + 1;
    }
    proof {
        lemma_find_member_none(mv, name@);
    }
    let mut out = chars_of("member `");
    push_str(&mut out, name.as_str());
    push_str(&mut out, "` not found in team `");
    push_str(&mut out, team_id);
    push_str(&mut out, "`");
    Err(respond(string_of(out.as_slice())))
}

/// The teams of every lead thread.
pub struct TeamRegistry {
    /// Each entry: the lead's thread, the team's identifier, the team.
    pub entries: Vec<(String, String, TeamRecord)>,
}

/// No two entries share a lead and a team identifier.
pub open spec fn registry_wf(e: Seq<(String, String, TeamRecord)>) -> bool {
    forall|i: int, j: int|
        0 <= i < e.len() && 0 <= j < e.len() && i != j ==> !((#[trigger] e[i]).0@ == (
        #[trigger] e[j]).0@ && e[i].1@ == e[j].1@)
}

/// Whether entry `i` is the team `team` of the lead `lead`.
pub open spec fn entry_is(e: Seq<(String, String, TeamRecord)>, i: int, lead: Seq<char>, team: Seq<
    char,
>) -> bool {
    0 <= i < e.len() && e[i].0@ == lead && e[i].1@ == team
}

/// The team `team` of the lead `lead`, if the registry holds it.
pub open spec fn spec_lookup(e: Seq<(String, String, TeamRecord)>, lead: Seq<char>, team: Seq<char>) -> Option<
    (Seq<(Seq<char>, Seq<char>, Option<Seq<char>>)>, i64),
> {
    if exists|i: int| entry_is(e, i, lead, team) {
        Some(record_view(e[choose|i: int| entry_is(e, i, lead, team)].2))
    } else {
        None
    }
}

proof fn lemma_lookup_at(e: Seq<(String, String, TeamRecord)>, i: int)
    requires
        registry_wf(e),
        0 <= i < e.len(),
    ensures
        spec_lookup(e, e[i].0@, e[i].1@) == Some(record_view(e[i].2)),
{
    let k = choose|k: int| entry_is(e, k, e[i].0@, e[i].1@);
    assert(entry_is(e, i, e[i].0@, e[i].1@));
    if k != i {
        assert(e[k].0@ == e[i].0@ && e[k].1@ == e[i].1@);
    }
}

/// The message for a team that is not registered: `team `<team>` not found`.
pub open spec fn not_found_message(team: Seq<char>) -> Seq<char> {
    "team `"@ + team + "` not found"@
}

fn team_error(prefix: &str, team_id: &str, suffix: &str) -> (e: FunctionCallError)
    ensures
        responds(e, prefix@ + team_id@ + suffix@),
{
    let mut out = chars_of(prefix);
    push_str(&mut out, team_id);
    push_str(&mut out, suffix);
    respond(string_of(out.as_slice()))
}

impl TeamRegistry {
    /// A registry without teams.
    pub fn new() -> (r: TeamRegistry)
        ensures
            r.entries@.len() == 0,
            registry_wf(r.entries@),
    {
        TeamRegistry { entries: Vec::new() }
    }

    /// The team `team`, led by `lead`.
    pub open spec fn lookup(&self, lead: Seq<char>, team: Seq<char>) -> Option<
        (Seq<(Seq<char>, Seq<char>, Option<Seq<char>>)>, i64),
    > {
        spec_lookup(self.entries@, lead, team)
    }

    fn position(&self, lead: &str, team_id: &str) -> (r: Option<usize>)
        requires
            registry_wf(self.entries@),
        ensures
            r matches Some(i) ==> entry_is(self.entries@, i as int, lead@, team_id@),
            r is None ==> forall|i: int| !entry_is(self.entries@, i, lead@, team_id@),
    {
        let mut i: usize = 0;
        while i < self.entries.len()
            invariant
                i <= self.entries@.len(),
                forall|j: int| 0 <= j < i ==> !entry_is(self.entries@, j, lead@, team_id@),
            decreases self.entries@.len() - i,
        {
            if str_eq(self.entries[i].0.as_str(), lead) && str_eq(self.entries[i].1.as_str(), team_id) {
                return Some(i);
            }
            i = i + 1;
        }
        None
    }

    /// The team `team_id` led by `lead`, or `team `<team>` not found`.
    pub fn get_team_record(&self, lead: &str, team_id: &str) -> (r: Result<TeamRecord, FunctionCallError>)
        requires
            registry_wf(self.entries@),
        ensures
            match self.lookup(lead@, team_id@) {
                Some(t) => r matches Ok(rec) && record_view(rec) == t,
                None => r matches Err(e) && responds(e, not_found_message(team_id@)),
            },
    {
        match self.position(lead, team_id) {
            Some(i) => {
                proof {
                    lemma_lookup_at(self.entries@, i as int);
                }
                Ok(self.entries[i].2.duplicate())
            },
            None => Err(team_error("team `", team_id, "` not found")),
        }
    }

    /// Registers a new team under `lead`; a team of that identifier already there is refused
    /// with `team `<team>` already exists`.
    pub fn insert_team_record(&mut self, lead: &str, team_id: String, record: TeamRecord) -> (r: Result<
        (),
        FunctionCallError,
    >)
        requires
            registry_wf(old(self).entries@),
        ensures
            registry_wf(final(self).entries@),
            old(self).lookup(lead@, team_id@) is Some ==> (r matches Err(e) && responds(
                e,
                "team `"@ + team_id@ + "` already exists"@,
            ) && final(self).entries@ == old(self).entries@),
            old(self).lookup(lead@, team_id@) is None ==> (r is Ok && forall|l: Seq<char>, t: Seq<char>|
                #[trigger] final(self).lookup(l, t) == if l == lead@ && t == team_id@ {
                    Some(record_view(record))
                } else {
                    old(self).lookup(l, t)
                }),
    {
        match self.position(lead, team_id.as_str()) {
            Some(i) => {
                proof {
                    assert(entry_is(self.entries@, i as int, lead@, team_id@));
                }
                Err(team_error("team `", team_id.as_str(), "` already exists"))
            },
            None => {
                let ghost old_e = self.entries@;
                let ghost tid = team_id@;
                let ghost rv = record_view(record);
                self.entries.push((owned(lead), team_id, record));
                proof {
                    let e = self.entries@;
                    assert forall|i: int, j: int|
                        0 <= i < e.len() && 0 <= j < e.len() && i != j implies !((
                        #[trigger] e[i]).0@ == (#[trigger] e[j]).0@ && e[i].1@ == e[j].1@) by {
                        if i < old_e.len() && j < old_e.len() {
                            assert(e[i] == old_e[i] && e[j] == old_e[j]);
                        } else if i < old_e.len() {
                            assert(e[i] == old_e[i]);
                            assert(!entry_is(old_e, i, lead@, tid));
                        } else {
                            assert(e[j] == old_e[j]);
                            assert(!entry_is(old_e, j, lead@, tid));
                        }
                    }
                    assert forall|l: Seq<char>, t: Seq<char>|
                        #[trigger] spec_lookup(e, l, t) == if l == lead@ && t == tid {
                            Some(rv)
                        } else {
                            spec_lookup(old_e, l, t)
                        } by {
                        let last = e.len() - 1;
                        if l == lead@ && t == tid {
                            lemma_lookup_at(e, last);
                        } else {
                            if exists|i: int| entry_is(old_e, i, l, t) {
                                let k = choose|i: int| entry_is(old_e, i, l, t);
                                assert(entry_is(e, k, l, t));
                                lemma_lookup_at(e, k);
                                lemma_lookup_at(old_e, k);
                            } else {
                                assert forall|i: int| !entry_is(e, i, l, t) by {
                                    if 0 <= i < old_e.len() {
                                        assert(e[i] == old_e[i]);
                                        assert(!entry_is(old_e, i, l, t));
                                    } else if i == old_e.len() {
                                        assert(e[i].0@ == lead@ && e[i].1@ == tid);
                                    }
                                }
                            }
                        }
                    }
                }
                Ok(())
            },
        }
    }

    /// Forgets the team `team_id` led by `lead`, if it is registered.
    pub fn remove_team_record(&mut self, lead: &str, team_id: &str)
        requires
            registry_wf(old(self).entries@),
        ensures
            registry_wf(final(self).entries@),
            forall|l: Seq<char>, t: Seq<char>|
                #[trigger] final(self).lookup(l, t) == if l == lead@ && t == team_id@ {
                    None
                } else {
                    old(self).lookup(l, t)
                },
    {
        match self.position(lead, team_id) {
            Some(i) => {
                let ghost old_e = self.entries@;
                let _ = self.entries.remove(i);
                proof {
                    lemma_remove_entry(old_e, i as int);
                }
            },
            None => {},
        }
    }

    /// Removes the named members from the team `team_id` led by `lead` (or answers
    /// `team `<team>` not found`). A team left without members is forgotten and none is given
    /// back; otherwise the team as it remains is given back.
    pub fn remove_members_from_team(
        &mut self,
        lead: &str,
        team_id: &str,
        member_names: &Vec<String>,
    ) -> (r: Result<Option<TeamRecord>, FunctionCallError>)
        requires
            registry_wf(old(self).entries@),
        ensures
            registry_wf(final(self).entries@),
            match old(self).lookup(lead@, team_id@) {
                None => r matches Err(e) && responds(e, not_found_message(team_id@))
                    && final(self).entries@ == old(self).entries@,
                Some((members, created)) => {
                    let kept = members.filter(
                        |m: (Seq<char>, Seq<char>, Option<Seq<char>>)|
                            !strings_seq(member_names@).contains(m.0),
                    );
                    &&& r is Ok
                    &&& forall|l: Seq<char>, t: Seq<char>|
                        !(l == lead@ && t == team_id@) ==> #[trigger] final(self).lookup(l, t)
                            == old(self).lookup(l, t)
                    &&& kept.len() == 0 ==> (r matches Ok(o) && o is None && final(self).lookup(
                        lead@,
                        team_id@,
                    ) is None)
                    &&& kept.len() > 0 ==> (r matches Ok(o) && o matches Some(rec) && record_view(
                        rec,
                    ) == (kept, created) && final(self).lookup(lead@, team_id@) == Some(
                        (kept, created),
                    ))
                },
            },
    {
        let i = match self.position(lead, team_id) {
            Some(i) => i,
            None => {
                return Err(team_error("team `", team_id, "` not found"));
            },
        };
        let ghost old_e = self.entries@;
        proof {
            lemma_lookup_at(old_e, i as int);
        }
        let (l, t, rec) = self.entries.remove(i);
        proof {
            lemma_remove_entry(old_e, i as int);
        }
        let ghost removed = self.entries@;
        let kept = retain_members(&rec.members, member_names);
        if kept.len() == 0 {
            return Ok(None);
        }
        let remaining = TeamRecord { members: kept, created_at: rec.created_at };
        let copy = remaining.duplicate();
        let ghost rv = record_view(remaining);
        let ghost lv = l@;
        let ghost tv = t@;
        self.entries.push((l, t, remaining));
        proof {
            let e = self.entries@;
            assert forall|a: int, b: int|
                0 <= a < e.len() && 0 <= b < e.len() && a != b implies !((
                #[trigger] e[a]).0@ == (#[trigger] e[b]).0@ && e[a].1@ == e[b].1@) by {
                if a < removed.len() && b < removed.len() {
                    assert(e[a] == removed[a] && e[b] == removed[b]);
                } else if a < removed.len() {
                    assert(e[a] == removed[a]);
                    assert(spec_lookup(removed, lv, tv) is None);
                    assert(!entry_is(removed, a, lv, tv));
                } else {
                    assert(e[b] == removed[b]);
                    assert(!entry_is(removed, b, lv, tv));
                }
            }
            assert forall|x: Seq<char>, y: Seq<char>|
                #[trigger] spec_lookup(e, x, y) == if x == lv && y == tv {
                    Some(rv)
                } else {
                    spec_lookup(removed, x, y)
                } by {
                let last = e.len() - 1;
                if x == lv && y == tv {
                    lemma_lookup_at(e, last);
                } else {
                    if exists|k: int| entry_is(removed, k, x, y) {
                        let k = choose|k: int| entry_is(removed, k, x, y);
                        assert(entry_is(e, k, x, y));
                        lemma_lookup_at(e, k);
                        lemma_lookup_at(removed, k);
                    } else {
                        assert forall|k: int| !entry_is(e, k, x, y) by {
                            if 0 <= k < removed.len() {
                                assert(e[k] == removed[k]);
                                assert(!entry_is(removed, k, x, y));
                            } else if k == removed.len() {
                                assert(e[k].0@ == lv && e[k].1@ == tv);
                            }
                        }
                    }
                }
            }
        }
        Ok(Some(copy))
    }
}

/// The views of a list of texts.
pub open spec fn strings_seq(v: Seq<String>) -> Seq<Seq<char>> {
    v.map_values(|s: String| s@)
}

proof fn lemma_remove_entry(e: Seq<(String, String, TeamRecord)>, i: int)
    requires
        registry_wf(e),
        0 <= i < e.len(),
    ensures
        registry_wf(e.remove(i)),
        forall|l: Seq<char>, t: Seq<char>|
            #[trigger] spec_lookup(e.remove(i), l, t) == if l == e[i].0@ && t == e[i].1@ {
                None
            } else {
                spec_lookup(e, l, t)
            },
{
    let r = e.remove(i);
    assert forall|a: int, b: int|
        0 <= a < r.len() && 0 <= b < r.len() && a != b implies !((#[trigger] r[a]).0@ == (
        #[trigger] r[b]).0@ && r[a].1@ == r[b].1@) by {
        let a0 = if a < i { a } else { a + 1 };
        let b0 = if b < i { b } else { b + 1 };
        assert(r[a] == e[a0] && r[b] == e[b0]);
    }
    assert forall|l: Seq<char>, t: Seq<char>|
        #[trigger] spec_lookup(r, l, t) == if l == e[i].0@ && t == e[i].1@ {
            None
        } else {
            spec_lookup(e, l, t)
        } by {
        if l == e[i].0@ && t == e[i].1@ {
            assert forall|k: int| !entry_is(r, k, l, t) by {
                if 0 <= k < r.len() {
                    let k0 = if k < i { k } else { k + 1 };
                    assert(r[k] == e[k0]);
                    assert(!(e[k0].0@ == e[i].0@ && e[k0].1@ == e[i].1@));
                }
            }
        } else {
            if exists|k: int| entry_is(e, k, l, t) {
                let k = choose|k: int| entry_is(e, k, l, t);
                assert(k != i);
                let k1 = if k < i { k } else { k - 1 };
                assert(r[k1] == e[k]);
                assert(entry_is(r, k1, l, t));
                lemma_lookup_at(r, k1);
                lemma_lookup_at(e, k);
            } else {
                assert forall|k: int| !entry_is(r, k, l, t) by {
                    if 0 <= k < r.len() {
                        let k0 = if k < i { k } else { k + 1 };
                        assert(r[k] == e[k0]);
                        assert(!entry_is(e, k0, l, t));
                    }
                }
            }
        }
    }
}

fn contains_name(names: &Vec<String>, name: &str) -> (r: bool)
    ensures
        r == strings_seq(names@).contains(name@),
{
    let mut i: usize = 0;
    while i < names.len()
        invariant
            i <= names@.len(),
            forall|j: int| 0 <= j < i ==> names@[j]@ != name@,
        decreases names@.len() - i,
    {
        if str_eq(names[i].as_str(), name) {
            assert(strings_seq(names@)[i as int] == name@);
            return true;
        }
        i = i + 1;
    }
    proof {
        if strings_seq(names@).contains(name@) {
            let k = choose|k: int| 0 <= k < strings_seq(names@).len() && strings_seq(names@)[k] == name@;
            assert(names@[k]@ == name@);
        }
    }
    false
}

/// The members whose names are not in `names`, in order.
fn retain_members(members: &Vec<TeamMember>, names: &Vec<String>) -> (r: Vec<TeamMember>)
    ensures
        members_view(r@) == members_view(members@).filter(
            |m: (Seq<char>, Seq<char>, Option<Seq<char>>)| !strings_seq(names@).contains(m.0),
        ),
{
    let ghost keep = |m: (Seq<char>, Seq<char>, Option<Seq<char>>)| !strings_seq(names@).contains(m.0);
    let mut out: Vec<TeamMember> = Vec::new();
    let mut i: usize = 0;
    while i < members.len()
        invariant
            i <= members@.len(),
            keep == (|m: (Seq<char>, Seq<char>, Option<Seq<char>>)| !strings_seq(names@).contains(m.0)),
            members_view(out@) == members_view(members@.take(i as int)).filter(keep),
        decreases members@.len() - i,
    {
        let ghost prev = out@;
        assert(members_view(members@.take(i + 1)) =~= members_view(members@.take(i as int)).push(
            member_view(members@[i as int]),
        ));
        reveal(Seq::filter);
        assert(members_view(members@.take(i + 1)).drop_last() =~= members_view(members@.take(i as int)));
        if !contains_name(names, members[i].name.as_str()) {
            out.push(members[i].duplicate());
            assert(members_view(out@) =~= members_view(prev).push(member_view(members@[i as int])));
        }
        i = i + 1;
    }
    assert(members@.take(members@.len() as int) =~= members@);
    out
}

/// The state of an agent.
#[derive(Debug, PartialEq)]
pub enum AgentStatus {
    PendingInit,
    Running,
    Completed(Option<String>),
    Errored(String),
    Shutdown,
    NotFound,
}

/// An agent whose state no longer changes: anything but starting or running.
pub open spec fn spec_is_final(s: AgentStatus) -> bool {
    !(s is PendingInit || s is Running)
}

impl AgentStatus {
    /// Whether the state no longer changes.
    pub fn is_final(&self) -> (r: bool)
        ensures
            r == spec_is_final(*self),
    {
        match self {
            AgentStatus::PendingInit | AgentStatus::Running => false,
            _ => true,
        }
    }

    /// A copy of this state.
    pub fn duplicate(&self) -> (r: AgentStatus)
        ensures
            r == *self,
    {
        match self {
            AgentStatus::PendingInit => AgentStatus::PendingInit,
            AgentStatus::Running => AgentStatus::Running,
            AgentStatus::Completed(m) => AgentStatus::Completed(clone_opt(m)),
            AgentStatus::Errored(m) => AgentStatus::Errored(m.clone()),
            AgentStatus::Shutdown => AgentStatus::Shutdown,
            AgentStatus::NotFound => AgentStatus::NotFound,
        }
    }
}

/// Whether a wait ends with the first agent that finishes, or waits for all of them.
#[derive(Debug, Clone, Copy, PartialEq, Eq, Structural)]
pub enum WaitMode {
    Any,
    All,
}

/// The final state recorded for an agent, the last one recorded when there are several.
pub open spec fn spec_status_for(finals: Seq<(String, AgentStatus)>, id: Seq<char>) -> Option<AgentStatus>
    decreases finals.len(),
{
    if finals.len() == 0 {
        None
    } else if finals.last().0@ == id {
        Some(finals.last().1)
    } else {
        spec_status_for(finals.drop_last(), id)
    }
}

fn status_for(finals: &Vec<(String, AgentStatus)>, id: &str) -> (r: Option<AgentStatus>)
    ensures
        r == spec_status_for(finals@, id@),
{
    let mut i: usize = finals.len();
    assert(finals@.take(i as int) =~= finals@);
    while i > 0
        invariant
            i <= finals@.len(),
            spec_status_for(finals@, id@) == spec_status_for(finals@.take(i as int), id@),
        decreases i,
    {
        let ghost pre = finals@.take(i as int);
        assert(pre.drop_last() =~= finals@.take(i - 1));
        assert(pre.last() == finals@[i - 1]);
        if str_eq(finals[i - 1].0.as_str(), id) {
            return Some(finals[i - 1].1.duplicate());
        }
        i = i - 1;
    }
    None
}

/// Whether a wait must still watch agents, given how many distinct agents of the `total`
/// listed ones are already known to be final (`recorded_count`).
pub fn wait_needed(mode: WaitMode, final_count: usize, total: usize) -> (r: bool)
    ensures
        r == match mode {
            WaitMode::Any => final_count == 0,
            WaitMode::All => final_count < total,
        },
{
    match mode {
        WaitMode::Any => final_count == 0,
        WaitMode::All => final_count < total,
    }
}

/// Every state recorded in `finals` is final.
pub open spec fn all_final(finals: Seq<(String, AgentStatus)>) -> bool {
    forall|j: int| 0 <= j < finals.len() ==> spec_is_final(#[trigger] finals[j].1)
}

proof fn lemma_status_for_final(finals: Seq<(String, AgentStatus)>, id: Seq<char>)
    requires
        all_final(finals),
    ensures
        spec_status_for(finals, id) matches Some(s) ==> spec_is_final(s),
    decreases finals.len(),
{
    if finals.len() > 0 && finals.last().0@ != id {
        assert(all_final(finals.drop_last())) by {
            assert forall|j: int| 0 <= j < finals.drop_last().len() implies spec_is_final(
                #[trigger] finals.drop_last()[j].1,
            ) by {
                assert(finals.drop_last()[j] == finals[j]);
            }
        }
        lemma_status_for_final(finals.drop_last(), id);
    }
}

/// What subscribing to the state of one agent gave.
#[derive(Debug)]
pub enum SubscribeOutcome {
    /// The subscription holds; this is the agent's current state.
    Subscribed(AgentStatus),
    /// No thread of that agent exists.
    ThreadNotFound,
    /// Subscribing failed otherwise, with this error.
    Failed(String),
}

/// How a wait goes on after subscribing to one agent.
#[derive(Debug)]
pub enum SubscribeStep {
    /// The agent's final state was recorded.
    Recorded,
    /// The agent is still starting or running: watch it.
    Watch,
    /// The wait fails with this error.
    Fail(String),
}

/// Takes what subscribing to the agent `id` gave into the final states recorded so far: a
/// final state is recorded, an agent still going is to be watched, an agent without a thread is
/// recorded as `NotFound`, and any other failure fails the wait with its error.
pub fn subscription_step(
    finals: &mut Vec<(String, AgentStatus)>,
    id: &str,
    outcome: SubscribeOutcome,
) -> (r: SubscribeStep)
    ensures
        match outcome {
            SubscribeOutcome::Subscribed(s) => if spec_is_final(s) {
                &&& r is Recorded
                &&& final(finals)@.len() == old(finals)@.len() + 1
                &&& final(finals)@.drop_last() == old(finals)@
                &&& final(finals)@.last().0@ == id@
                &&& final(finals)@.last().1 == s
            } else {
                r is Watch && final(finals)@ == old(finals)@
            },
            SubscribeOutcome::ThreadNotFound => {
                &&& r is Recorded
                &&& final(finals)@.len() == old(finals)@.len() + 1
                &&& final(finals)@.drop_last() == old(finals)@
                &&& final(finals)@.last().0@ == id@
                &&& final(finals)@.last().1 == AgentStatus::NotFound
            },
            SubscribeOutcome::Failed(e) => {
                &&& r matches SubscribeStep::Fail(m) && m == e
                &&& final(finals)@ == old(finals)@
            },
        },
        all_final(old(finals)@) ==> all_final(final(finals)@),
{
    match outcome {
        SubscribeOutcome::Subscribed(s) => {
            if s.is_final() {
                finals.push((owned(id), s));
                SubscribeStep::Recorded
            } else {
                SubscribeStep::Watch
            }
        },
        SubscribeOutcome::ThreadNotFound => {
            finals.push((owned(id), AgentStatus::NotFound));
            SubscribeStep::Recorded
        },
        SubscribeOutcome::Failed(e) => SubscribeStep::Fail(e),
    }
}

/// Takes a state seen while watching the agent `id`: a final state is recorded and the watch
/// of that agent ends (`true`); any other state keeps it going (`false`).
pub fn observe_status(finals: &mut Vec<(String, AgentStatus)>, id: &str, status: AgentStatus) -> (r: bool)
    ensures
        r == spec_is_final(status),
        r ==> final(finals)@.len() == old(finals)@.len() + 1 && final(finals)@.drop_last()
            == old(finals)@ && final(finals)@.last().0@ == id@ && final(finals)@.last().1 == status,
        !r ==> final(finals)@ == old(finals)@,
        all_final(old(finals)@) ==> all_final(final(finals)@),
{
    if status.is_final() {
        finals.push((owned(id), status));
        true
    } else {
        false
    }
}

/// The outcome of waiting on agents: the final state of each watched agent that has one, in
/// the order the agents were given, and whether the wait ran out of time.
#[derive(Debug)]
pub struct WaitForAgentsResult {
    pub statuses: Vec<(String, AgentStatus)>,
    pub timed_out: bool,
}

/// The agent at position `i` of `ids` was already listed before it.
pub open spec fn listed_before(ids: Seq<String>, i: int) -> bool {
    exists|j: int| 0 <= j < i && (#[trigger] ids[j])@ == ids[i]@
}

/// How many distinct agents of `ids` have a recorded final state.
pub open spec fn recorded_count(ids: Seq<String>, finals: Seq<(String, AgentStatus)>) -> nat
    decreases ids.len(),
{
    if ids.len() == 0 {
        0
    } else {
        recorded_count(ids.drop_last(), finals) + if spec_status_for(finals, ids.last()@) is Some
            && !listed_before(ids, ids.len() - 1) {
            1nat
        } else {
            0nat
        }
    }
}

/// No agent is listed twice.
pub open spec fn distinct_ids(ids: Seq<String>) -> bool {
    forall|i: int, j: int| 0 <= i < j < ids.len() ==> (#[trigger] ids[i])@ != (#[trigger] ids[j])@
}

proof fn lemma_recorded_count_distinct(ids: Seq<String>, finals: Seq<(String, AgentStatus)>)
    requires
        distinct_ids(ids),
    ensures
        recorded_count(ids, finals) == ids.filter(|id: String| spec_status_for(finals, id@) is Some).len(),
    decreases ids.len(),
{
    reveal(Seq::filter);
    if ids.len() > 0 {
        let d = ids.drop_last();
        assert(distinct_ids(d)) by {
            assert forall|i: int, j: int| 0 <= i < j < d.len() implies (#[trigger] d[i])@ != (
            #[trigger] d[j])@ by {
                assert(d[i] == ids[i] && d[j] == ids[j]);
            }
        }
        lemma_recorded_count_distinct(d, finals);
        assert(!listed_before(ids, ids.len() - 1)) by {
            if listed_before(ids, ids.len() - 1) {
                let j = choose|j: int| 0 <= j < ids.len() - 1 && (#[trigger] ids[j])@ == ids[ids.len() - 1]@;
                assert(ids[j]@ != ids[ids.len() - 1]@);
            }
        }
    }
}

/// The outcome of a wait on the agents `ids`, given the final states recorded for the agents
/// that finished. The statuses are those of the listed agents that have one, in list order.
/// In `Any` mode the wait timed out when no status is listed; in `All` mode when fewer
/// distinct agents have a final state than agents were listed (for agents listed once each:
/// when fewer statuses come back than agents were waited on).
pub fn wait_for_agents_result(
    ids: &Vec<String>,
    finals: &Vec<(String, AgentStatus)>,
    mode: WaitMode,
) -> (r: WaitForAgentsResult)
    ensures
        r.statuses@.len() == ids@.filter(|id: String| spec_status_for(finals@, id@) is Some).len(),
        forall|i: int|
            0 <= i < r.statuses@.len() ==> {
                let id = ids@.filter(|id: String| spec_status_for(finals@, id@) is Some)[i];
                &&& (#[trigger] r.statuses@[i]).0@ == id@
                &&& spec_status_for(finals@, id@) == Some(r.statuses@[i].1)
            },
        r.timed_out == match mode {
            WaitMode::Any => r.statuses@.len() == 0,
            WaitMode::All => recorded_count(ids@, finals@) < ids@.len(),
        },
        distinct_ids(ids@) && mode == WaitMode::All ==> (r.timed_out <==> r.statuses@.len()
            < ids@.len()),
        all_final(finals@) ==> forall|i: int|
            0 <= i < r.statuses@.len() ==> spec_is_final(#[trigger] r.statuses@[i].1),
{
    let ghost has = |id: String| spec_status_for(finals@, id@) is Some;
    let mut statuses: Vec<(String, AgentStatus)> = Vec::new();
    let mut count: usize = 0;
    let mut i: usize = 0;
    while i < ids.len()
        invariant
            i <= ids@.len(),
            count == recorded_count(ids@.take(i as int), finals@),
            count <= i,
            has == (|id: String| spec_status_for(finals@, id@) is Some),
            statuses@.len() == ids@.take(i as int).filter(has).len(),
            forall|k: int|
                0 <= k < statuses@.len() ==> {
                    let id = ids@.take(i as int).filter(has)[k];
                    &&& (#[trigger] statuses@[k]).0@ == id@
                    &&& spec_status_for(finals@, id@) == Some(statuses@[k].1)
                },
        decreases ids@.len() - i,
    {
        proof {
            reveal(Seq::filter);
            assert(ids@.take(i + 1).drop_last() =~= ids@.take(i as int));
        }
        let mut seen = false;
        let mut j: usize = 0;
        while j < i
            invariant
                j <= i,
                i < ids@.len(),
                seen == exists|k: int| 0 <= k < j && (#[trigger] ids@[k])@ == ids@[i as int]@,
            decreases i - j,
        {
            if str_eq(ids[j].as_str(), ids[i].as_str()) {
                seen = true;
            }
            j = j + 1;
        }
        proof {
            let t = ids@.take(i + 1);
            assert(t.last() == ids@[i as int]);
            assert(seen == listed_before(t, t.len() - 1)) by {
                if seen {
                    let k = choose|k: int| 0 <= k < i && (#[trigger] ids@[k])@ == ids@[i as int]@;
                    assert(t[k] == ids@[k]);
                }
                if listed_before(t, t.len() - 1) {
                    let k = choose|k: int| 0 <= k < t.len() - 1 && (#[trigger] t[k])@ == t[t.len() - 1]@;
                    assert(t[k] == ids@[k]);
                }
            }
        }
        match status_for(finals, ids[i].as_str()) {
            Some(s) => {
                statuses.push((ids[i].clone(), s));
                if !seen {
                    count = count + 1;
                }
            },
            None => {},
        }
        i = i + 1;
    }
    assert(ids@.take(ids@.len() as int) =~= ids@);
    proof {
        if all_final(finals@) {
            assert forall|i: int| 0 <= i < statuses@.len() implies spec_is_final(
                #[trigger] statuses@[i].1,
            ) by {
                let id = ids@.filter(has)[i];
                lemma_status_for_final(finals@, id@);
            }
        }
    }
    proof {
        if distinct_ids(ids@) {
            lemma_recorded_count_distinct(ids@, finals@);
        }
    }
    let timed_out = match mode {
        WaitMode::Any => statuses.len() == 0,
        WaitMode::All => count < ids.len(),
    };
    WaitForAgentsResult { statuses, timed_out }
}

/// A member named in an outcome: its name and agent.
#[derive(Debug)]
pub struct TriggeredMember {
    pub name: String,
    pub agent_id: String,
}

/// Whether a team wait completed: in `Any` mode, an agent finished in time; in `All` mode,
/// the wait did not time out and every member's state is final.
pub fn wait_team_completed(mode: WaitMode, result: &WaitForAgentsResult, member_states: &Vec<AgentStatus>) -> (r: bool)
    ensures
        r == match mode {
            WaitMode::Any => !result.timed_out && result.statuses@.len() > 0,
            WaitMode::All => !result.timed_out && forall|i: int|
                0 <= i < member_states@.len() ==> spec_is_final(#[trigger] member_states@[i]),
        },
{
    match mode {
        WaitMode::Any => !result.timed_out && result.statuses.len() > 0,
        WaitMode::All => {
            if result.timed_out {
                return false;
            }
            let mut i: usize = 0;
            while i < member_states.len()
                invariant
                    i <= member_states@.len(),
                    mode == WaitMode::All,
                    !result.timed_out,
                    forall|k: int| 0 <= k < i ==> spec_is_final(#[trigger] member_states@[k]),
                decreases member_states@.len() - i,
            {
                if !member_states[i].is_final() {
                    assert(!spec_is_final(member_states@[i as int]));
                    return false;
                }
                i = i + 1;
            }
            true
        },
    }
}

/// The first member whose agent is `agent_id`.
pub open spec fn spec_member_with_agent(members: Seq<TeamMember>, agent_id: Seq<char>) -> Option<int>
    decreases members.len(),
{
    if members.len() == 0 {
        None
    } else if members[0].agent_id@ == agent_id {
        Some(0)
    } else {
        match spec_member_with_agent(members.drop_first(), agent_id) {
            Some(i) => Some(i + 1),
            None => None,
        }
    }
}

/// The member that ended an `Any` wait: the member of the first agent that finished; none in
/// `All` mode or when no agent finished.
pub fn triggered_member(mode: WaitMode, result: &WaitForAgentsResult, members: &Vec<TeamMember>) -> (r: Option<
    TriggeredMember,
>)
    ensures
        (mode == WaitMode::All || result.statuses@.len() == 0) ==> r is None,
        (mode == WaitMode::Any && result.statuses@.len() > 0) ==> match spec_member_with_agent(
            members@,
            result.statuses@[0].0@,
        ) {
            Some(i) => r matches Some(t) && t.name@ == members@[i].name@ && t.agent_id@
                == members@[i].agent_id@,
            None => r is None,
        },
{
    if mode == WaitMode::All || result.statuses.len() == 0 {
        return None;
    }
    let id = result.statuses[0].0.as_str();
    let mut i: usize = 0;
    assert(members@.skip(0) =~= members@);
    while i < members.len()
        invariant
            i <= members@.len(),
            mode == WaitMode::Any,
            result.statuses@.len() > 0,
            id@ == result.statuses@[0].0@,
            spec_member_with_agent(members@, id@) == match spec_member_with_agent(
                members@.skip(i as int),
                id@,
            ) {
                Some(k) => Some(k + i),
                None => None,
            },
        decreases members@.len() - i,
    {
        let ghost rest = members@.skip(i as int);
        assert(rest.drop_first() =~= members@.skip(i + 1));
        assert(rest[0] == members@[i as int]);
        if str_eq(members[i].agent_id.as_str(), id) {
            return Some(
                TriggeredMember {
                    name: members[i].name.clone(),
                    agent_id: members[i].agent_id.clone(),
                },
            );
        }
        i = i + 1;
    }
    None
}

/// The members a team close selects: all of them when no names are given; otherwise those
/// whose names are among the given ones (trimmed). An empty list, a blank name, or a
/// selection without members is refused.
pub fn select_close_members(team: &TeamRecord, names: Option<Vec<String>>) -> (r: Result<
    Vec<TeamMember>,
    FunctionCallError,
>)
    ensures
        match names {
            None => if team.members@.len() == 0 {
                r matches Err(e) && responds(e, "no matching team members found"@)
            } else {
                r matches Ok(v) && members_view(v@) == members_view(team.members@)
            },
            Some(ns) => if ns@.len() == 0 {
                r matches Err(e) && responds(e, "members must be non-empty when provided"@)
            } else if exists|i: int| 0 <= i < ns@.len() && trim(#[trigger] ns@[i]@).len() == 0 {
                r matches Err(e) && responds(e, "member name must be non-empty"@)
            } else {
                let chosen = members_view(team.members@).filter(
                    |m: (Seq<char>, Seq<char>, Option<Seq<char>>)| ns@.map_values(|s: String| trim(s@)).contains(m.0),
                );
                if chosen.len() == 0 {
                    r matches Err(e) && responds(e, "no matching team members found"@)
                } else {
                    r matches Ok(v) && members_view(v@) == chosen
                }
            },
        },
{
    match names {
        None => {
            let all = duplicate_members(&team.members);
            assert(all@.len() == team.members@.len()) by {
                assert(members_view(all@).len() == all@.len());
                assert(members_view(team.members@).len() == team.members@.len());
            }
            if all.len() == 0 {
                return Err(respond(owned("no matching team members found")));
            }
            Ok(all)
        },
        Some(ns) => {
            if ns.len() == 0 {
                return Err(respond(owned("members must be non-empty when provided")));
            }
            let mut out: Vec<String> = Vec::new();
            let mut i: usize = 0;
            while i < ns.len()
                invariant
                    i <= ns@.len(),
                    ns@.len() > 0,
                    names == Some(ns),
                    forall|k: int| 0 <= k < i ==> trim(#[trigger] ns@[k]@).len() > 0,
                    crate::tasks::texts(out@) == ns@.take(i as int).map_values(|s: String| trim(s@)),
                decreases ns@.len() - i,
            {
                let t = trim_str(ns[i].as_str());
                if t.as_str().is_empty() {
                    assert(trim(ns@[i as int]@).len() == 0);
                    return Err(respond(owned("member name must be non-empty")));
                }
                let ghost prev = out@;
                out.push(t);
                assert(crate::tasks::texts(out@) =~= crate::tasks::texts(prev).push(trim(ns@[i as int]@)));
                assert(ns@.take(i + 1).map_values(|s: String| trim(s@)) =~= ns@.take(i as int).map_values(
                    |s: String| trim(s@),
                ).push(trim(ns@[i as int]@)));
                i = i + 1;
            }
            assert(ns@.take(ns@.len() as int) =~= ns@);
            let kept = keep_named(&team.members, &out);
            assert(strings_seq(out@) == ns@.map_values(|s: String| trim(s@)));
            if kept.len() == 0 {
                return Err(respond(owned("no matching team members found")));
            }
            Ok(kept)
        },
    }
}

/// The members whose names are among `names`, in order.
fn keep_named(members: &Vec<TeamMember>, names: &Vec<String>) -> (r: Vec<TeamMember>)
    ensures
        members_view(r@) == members_view(members@).filter(
            |m: (Seq<char>, Seq<char>, Option<Seq<char>>)| strings_seq(names@).contains(m.0),
        ),
{
    let ghost keep = |m: (Seq<char>, Seq<char>, Option<Seq<char>>)| strings_seq(names@).contains(m.0);
    let mut out: Vec<TeamMember> = Vec::new();
    let mut i: usize = 0;
    while i < members.len()
        invariant
            i <= members@.len(),
            keep == (|m: (Seq<char>, Seq<char>, Option<Seq<char>>)| strings_seq(names@).contains(m.0)),
            members_view(out@) == members_view(members@.take(i as int)).filter(keep),
        decreases members@.len() - i,
    {
        let ghost prev = out@;
        assert(members_view(members@.take(i + 1)) =~= members_view(members@.take(i as int)).push(
            member_view(members@[i as int]),
        ));
        reveal(Seq::filter);
        assert(members_view(members@.take(i + 1)).drop_last() =~= members_view(members@.take(i as int)));
        if contains_name(names, members[i].name.as_str()) {
            out.push(members[i].duplicate());
            assert(members_view(out@) =~= members_view(prev).push(member_view(members@[i as int])));
        }
        i = i + 1;
    }
    assert(members@.take(members@.len() as int) =~= members@);
    out
}

/// The state reported for a closed member: the state after the close when the close failed;
/// a member already gone or shut down stays so; a member no longer found after a close reads
/// as shut down; otherwise the state after the close.
pub fn close_event_status(before: &AgentStatus, close_ok: bool, after: AgentStatus) -> (r: AgentStatus)
    ensures
        r == if !close_ok {
            after
        } else if *before is NotFound {
            AgentStatus::NotFound
        } else if *before is Shutdown {
            AgentStatus::Shutdown
        } else if after is NotFound {
            AgentStatus::Shutdown
        } else {
            after
        },
{
    if !close_ok {
        return after;
    }
    match before {
        AgentStatus::NotFound => AgentStatus::NotFound,
        AgentStatus::Shutdown => AgentStatus::Shutdown,
        _ => match after {
            AgentStatus::NotFound => AgentStatus::Shutdown,
            other => other,
        },
    }
}

/// Whether a member must be shut down when its team closes: not when it is already shut
/// down or gone.
pub fn needs_shutdown(before: &AgentStatus) -> (r: bool)
    ensures
        r == !(*before is Shutdown || *before is NotFound),
{
    match before {
        AgentStatus::Shutdown | AgentStatus::NotFound => false,
        _ => true,
    }
}

/// How closing one member went: whether it went well, and the error otherwise: the close's
/// error, the worktree cleanup's error, or both joined by `; `.
pub fn close_member_outcome(close_error: Option<String>, cleanup_error: Option<String>) -> (r: (
    bool,
    Option<String>,
))
    ensures
        r.0 == (close_error is None && cleanup_error is None),
        match (close_error, cleanup_error) {
            (None, None) => r.1 is None,
            (None, Some(c)) => r.1 matches Some(m) && m@ == c@,
            (Some(e), None) => r.1 matches Some(m) && m@ == e@,
            (Some(e), Some(c)) => r.1 matches Some(m) && m@ == e@ + "; "@ + c@,
        },
{
    match (close_error, cleanup_error) {
        (None, None) => (true, None),
        (None, Some(c)) => (false, Some(c)),
        (Some(e), None) => (false, Some(e)),
        (Some(e), Some(c)) => {
            let mut out = chars_of(e.as_str());
            push_str(&mut out, "; ");
            push_str(&mut out, c.as_str());
            (false, Some(string_of(out.as_slice())))
        },
    }
}

/// A member asked for in a team spawn.
#[derive(Debug)]
pub struct SpawnTeamMemberArgs {
    pub name: String,
    pub task: String,
    pub agent_type: Option<String>,
    pub model_provider: Option<String>,
    pub model: Option<String>,
    pub worktree: bool,
    pub background: bool,
}

/// The first refusal of a team spawn's member list, checking members in order: the list must
/// not be empty, and each member needs a name (trimmed) not used before it and a task.
pub open spec fn spec_spawn_members_error(members: Seq<SpawnTeamMemberArgs>) -> Option<Seq<char>>
    decreases members.len(),
{
    if members.len() == 0 {
        Some("members must be non-empty"@)
    } else {
        spawn_members_error_from(members, 0)
    }
}

/// The first refusal among members `i..`, given that those before `i` passed.
pub open spec fn spawn_members_error_from(members: Seq<SpawnTeamMemberArgs>, i: int) -> Option<Seq<char>>
    decreases members.len() - i,
{
    if i < 0 || i >= members.len() {
        None
    } else {
        let name = trim(members[i].name@);
        if name.len() == 0 {
            Some("member name must be non-empty"@)
        } else if exists|j: int| 0 <= j < i && trim(#[trigger] members[j].name@) == name {
            Some("duplicate member name `"@ + name + "`"@)
        } else if trim(members[i].task@).len() == 0 {
            Some("task for member `"@ + name + "` must be non-empty"@)
        } else {
            spawn_members_error_from(members, i + 1)
        }
    }
}

/// Checks the member list of a team spawn.
pub fn validate_spawn_team_members(members: &Vec<SpawnTeamMemberArgs>) -> (r: Result<(), FunctionCallError>)
    ensures
        match spec_spawn_members_error(members@) {
            Some(m) => r matches Err(e) && responds(e, m),
            None => r is Ok,
        },
{
    if members.len() == 0 {
        return Err(respond(owned("members must be non-empty")));
    }
    let mut seen: Vec<String> = Vec::new();
    let mut i: usize = 0;
    while i < members.len()
        invariant
            i <= members@.len(),
            members@.len() > 0,
            spec_spawn_members_error(members@) == spawn_members_error_from(members@, i as int),
            strings_seq(seen@) == members@.take(i as int).map_values(|m: SpawnTeamMemberArgs| trim(m.name@)),
        decreases members@.len() - i,
    {
        let name = trim_str(members[i].name.as_str());
        if name.as_str().is_empty() {
            return Err(respond(owned("member name must be non-empty")));
        }
        if contains_name(&seen, name.as_str()) {
            proof {
                let k = choose|k: int| 0 <= k < strings_seq(seen@).len() && strings_seq(seen@)[k] == name@;
                assert(trim(members@[k].name@) == name@);
            }
            let mut out = chars_of("duplicate member name `");
            push_str(&mut out, name.as_str());
            push_str(&mut out, "`");
            return Err(respond(string_of(out.as_slice())));
        }
        proof {
            if exists|j: int| 0 <= j < i && trim(#[trigger] members@[j].name@) == name@ {
                let j = choose|j: int| 0 <= j < i && trim(#[trigger] members@[j].name@) == name@;
                assert(strings_seq(seen@)[j] == name@);
            }
        }
        if crate::text::is_blank_str(members[i].task.as_str()) {
            let mut out = chars_of("task for member `");
            push_str(&mut out, name.as_str());
            push_str(&mut out, "` must be non-empty");
            return Err(respond(string_of(out.as_slice())));
        }
        let ghost prev = seen@;
        let ghost nv = name@;
        seen.push(name);
        assert(strings_seq(seen@) =~= strings_seq(prev).push(nv));
        assert(members@.take(i + 1).map_values(|m: SpawnTeamMemberArgs| trim(m.name@)) =~= members@.take(
            i as int,
        ).map_values(|m: SpawnTeamMemberArgs| trim(m.name@)).push(trim(members@[i as int].name@)));
        i = i + 1;
    }
    Ok(())
}

/// The identifier of a spawned team: the given one, normalized, or the fresh one.
pub fn spawn_team_id(provided: Option<String>, fresh: String) -> (r: Result<String, FunctionCallError>)
    ensures
        match provided {
            None => r matches Ok(s) && s@ == fresh@,
            Some(p) => if trim(p@).len() == 0 {
                r matches Err(e) && responds(e, "team_id must be non-empty"@)
            } else {
                r matches Ok(s) && s@ == trim(p@)
            },
        },
{
    match provided {
        Some(p) => crate::collab::normalized_team_id(p.as_str()),
        None => Ok(fresh),
    }
}

/// The message for a team without members: `team `<team>` has no members`.
pub fn no_members_error(team_id: &str) -> (e: FunctionCallError)
    ensures
        responds(e, "team `"@ + team_id@ + "` has no members"@),
{
    team_error("team `", team_id, "` has no members")
}

/// A member as the team configuration file stores it.
#[derive(Debug)]
pub struct PersistedTeamMember {
    pub name: String,
    pub agent_id: String,
    pub agent_type: Option<String>,
}

/// A team as its configuration file stores it.
#[derive(Debug)]
pub struct PersistedTeamConfig {
    pub team_name: String,
    pub lead_thread_id: String,
    pub created_at: i64,
    pub members: Vec<PersistedTeamMember>,
}

/// The configuration file of a team led by `lead`: the team's identifier as its name, the
/// lead, the creation time, and the members in order.
pub fn persisted_team_config(lead: &str, team_id: &str, team: &TeamRecord) -> (r: PersistedTeamConfig)
    ensures
        r.team_name@ == team_id@,
        r.lead_thread_id@ == lead@,
        r.created_at == team.created_at,
        r.members@.len() == team.members@.len(),
        forall|i: int|
            0 <= i < r.members@.len() ==> (#[trigger] r.members@[i]).name@ == team.members@[i].name@
                && r.members@[i].agent_id@ == team.members@[i].agent_id@ && r.members@[i].agent_type
                == team.members@[i].agent_type,
{
    let mut members: Vec<PersistedTeamMember> = Vec::new();
    let mut i: usize = 0;
    while i < team.members.len()
        invariant
            i <= team.members@.len(),
            members@.len() == i,
            forall|k: int|
                0 <= k < i ==> (#[trigger] members@[k]).name@ == team.members@[k].name@
                    && members@[k].agent_id@ == team.members@[k].agent_id@ && members@[k].agent_type
                    == team.members@[k].agent_type,
        decreases team.members@.len() - i,
    {
        let m = &team.members[i];
        members.push(
            PersistedTeamMember {
                name: m.name.clone(),
                agent_id: m.agent_id.clone(),
                agent_type: clone_opt(&m.agent_type),
            },
        );
        i = i + 1;
    }
    PersistedTeamConfig {
        team_name: owned(team_id),
        lead_thread_id: owned(lead),
        created_at: team.created_at,
        members,
    }
}

/// A wait needs agents to wait on.
pub fn check_wait_ids(ids: &Vec<String>) -> (r: Result<(), FunctionCallError>)
    ensures
        ids@.len() == 0 ==> (r matches Err(e) && responds(e, "ids must be non-empty"@)),
        ids@.len() > 0 ==> r is Ok,
{
    if ids.len() == 0 {
        return Err(respond(owned("ids must be non-empty")));
    }
    Ok(())
}

/// Where spawning a team stands.
#[derive(Debug, Clone, Copy, PartialEq, Eq, Structural)]
pub enum SpawnStage {
    /// Preparing, giving a worktree to, or spawning the next member.
    Member,
    /// Registering the worktree lease of the member just spawned.
    Registering,
    /// Recording the team.
    Inserting,
    /// Writing the team's files.
    Persisting,
    /// Finished, rolled back or abandoned.
    Done,
}

/// The state of spawning a team: the requested members (trimmed name, role, whether it gets a
/// worktree), the creation time, the members spawned so far with their states, the worktree
/// made for the member being spawned, and the stage.
#[derive(Debug)]
pub struct SpawnTeamState {
    pub requested: Vec<(String, Option<String>, bool)>,
    pub created_at: i64,
    pub spawned: Vec<TeamMember>,
    pub statuses: Vec<AgentStatus>,
    pub lease: Option<WorktreeLease>,
    pub stage: SpawnStage,
}

/// The view of an optional text.
pub open spec fn text_opt_view(s: Option<String>) -> Option<Seq<char>> {
    match s {
        Some(t) => Some(t@),
        None => None,
    }
}

impl SpawnTeamState {
    /// Members are spawned in request order, each with its requested name and role, one state
    /// per spawned member; a worktree is held only for a member that asked for one.
    pub open spec fn wf(self) -> bool {
        &&& self.spawned@.len() == self.statuses@.len()
        &&& self.spawned@.len() <= self.requested@.len()
        &&& forall|i: int|
            0 <= i < self.spawned@.len() ==> (#[trigger] self.spawned@[i]).name@
                == self.requested@[i].0@ && text_opt_view(self.spawned@[i].agent_type)
                == text_opt_view(self.requested@[i].1)
        &&& self.stage is Member ==> self.spawned@.len() < self.requested@.len() && (
        self.lease is Some ==> self.requested@[self.spawned@.len() as int].2)
        &&& self.stage is Registering ==> self.spawned@.len() >= 1 && self.lease is None
        &&& (self.stage is Inserting || self.stage is Persisting) ==> self.spawned@.len()
            == self.requested@.len() && self.lease is None
    }
}

/// What the runner of a team spawn reports after carrying out an action.
#[derive(Debug)]
pub enum SpawnTeamEvent {
    /// Preparing the configuration of the next member failed.
    ConfigRejected(FunctionCallError),
    /// The worktree of the next member was made, or making it failed.
    WorktreeCreated(Result<WorktreeLease, FunctionCallError>),
    /// The next member was spawned (its agent and its state just after), or spawning failed.
    MemberSpawned(Result<(String, AgentStatus), FunctionCallError>),
    /// The lease of the member just spawned was registered.
    LeaseRegistered,
    /// The team was recorded, or recording it failed.
    RecordInserted(Result<(), FunctionCallError>),
    /// The team's files were written, or writing them failed.
    Persisted(Result<(), FunctionCallError>),
}

/// What the runner of a team spawn does next.
#[derive(Debug)]
pub enum SpawnTeamAction {
    /// Make a worktree for the requested member at this position.
    CreateWorktree(usize),
    /// Spawn the requested member at this position, working in `cwd` when it has a worktree.
    SpawnMember { index: usize, cwd: Option<String> },
    /// Register the worktree lease of a spawned agent.
    RegisterLease { agent_id: String, lease: WorktreeLease },
    /// Record the team.
    InsertRecord(TeamRecord),
    /// Write the team's files, with the initial tasks of its members.
    Persist(TeamRecord),
    /// Undo the spawn: shut down exactly these members, remove the worktree made for a member
    /// whose spawn failed, drop the team's record and files when asked, and fail with `error`.
    Rollback {
        spawned: Vec<TeamMember>,
        remove_worktree: Option<WorktreeLease>,
        remove_record: bool,
        remove_files: bool,
        error: FunctionCallError,
    },
    /// Fail with this error, undoing nothing (a member's configuration was refused).
    Abort(FunctionCallError),
    /// The team is spawned: its members in request order, with their states.
    Finish { members: Vec<TeamMember>, statuses: Vec<AgentStatus> },
    /// The event does not belong to the stage; nothing changes.
    Unexpected,
}

/// The action that goes on with the next requested member, or records the team when every
/// member is spawned; `st` is the state it leaves.
pub open spec fn next_member_action(st: SpawnTeamState, a: SpawnTeamAction) -> bool {
    let i = st.spawned@.len();
    if i < st.requested@.len() {
        &&& st.stage is Member
        &&& if st.requested@[i as int].2 {
            a == SpawnTeamAction::CreateWorktree(i as usize)
        } else {
            a == SpawnTeamAction::SpawnMember { index: i as usize, cwd: None }
        }
    } else {
        &&& st.stage is Inserting
        &&& a matches SpawnTeamAction::InsertRecord(rec) && record_view(rec) == (
            members_view(st.spawned@),
            st.created_at,
        )
    }
}

/// `a` rolls back the members `spawned` with the error `e`.
pub open spec fn rolls_back(
    a: SpawnTeamAction,
    spawned: Seq<TeamMember>,
    worktree: Option<WorktreeLease>,
    record: bool,
    files: bool,
    e: FunctionCallError,
) -> bool {
    a matches SpawnTeamAction::Rollback { spawned: s, remove_worktree, remove_record, remove_files, error }
        && members_view(s@) == members_view(spawned) && remove_worktree == worktree && remove_record
        == record && remove_files == files && error == e
}

/// The step of a team spawn. Members are taken in request order: a member that asks for a
/// worktree gets one first, then is spawned (in the worktree); its lease is registered once it
/// is spawned. When all are spawned the team is recorded, then its files are written, and the
/// members are returned in request order with their states. A refused configuration fails at
/// once. Any other failure rolls back exactly the members spawned so far, with that error: a
/// failed spawn also removes the worktree made for it, and failed writing also drops the
/// team's record and files. An event that does not belong to the stage changes nothing.
pub open spec fn spawn_team_next(
    st: SpawnTeamState,
    ev: SpawnTeamEvent,
    st2: SpawnTeamState,
    a: SpawnTeamAction,
) -> bool {
    let i = st.spawned@.len();
    let same_members = st2.requested == st.requested && st2.created_at == st.created_at
        && st2.spawned == st.spawned && st2.statuses == st.statuses;
    match (st.stage, ev) {
        (SpawnStage::Member, SpawnTeamEvent::ConfigRejected(e)) => a == SpawnTeamAction::Abort(e)
            && st2.stage is Done,
        (SpawnStage::Member, SpawnTeamEvent::WorktreeCreated(Ok(l))) => if st.requested@[i as int].2
            && st.lease is None {
            same_members && st2.stage is Member && st2.lease == Some(l) && (
            a matches SpawnTeamAction::SpawnMember { index, cwd } && index == i && text_opt_view(
                cwd,
            ) == Some(l.worktree_path@))
        } else {
            st2 == st && a is Unexpected
        },
        (SpawnStage::Member, SpawnTeamEvent::WorktreeCreated(Err(e))) => st2.stage is Done
            && rolls_back(a, st.spawned@, None, false, false, e),
        (SpawnStage::Member, SpawnTeamEvent::MemberSpawned(Ok((id, status)))) => {
            &&& st2.requested == st.requested && st2.created_at == st.created_at
            &&& members_view(st2.spawned@) == members_view(st.spawned@).push(
                (st.requested@[i as int].0@, id@, text_opt_view(st.requested@[i as int].1)),
            )
            &&& st2.statuses@ == st.statuses@.push(status)
            &&& st2.lease is None
            &&& match st.lease {
                Some(l) => st2.stage is Registering && (a matches SpawnTeamAction::RegisterLease {
                    agent_id,
                    lease,
                } && agent_id@ == id@ && lease == l),
                None => next_member_action(st2, a),
            }
        },
        (SpawnStage::Member, SpawnTeamEvent::MemberSpawned(Err(e))) => st2.stage is Done
            && rolls_back(a, st.spawned@, st.lease, false, false, e),
        (SpawnStage::Registering, SpawnTeamEvent::LeaseRegistered) => same_members && st2.lease
            is None && next_member_action(st2, a),
        (SpawnStage::Inserting, SpawnTeamEvent::RecordInserted(Ok(()))) => same_members && st2.stage
            is Persisting && st2.lease is None && (a matches SpawnTeamAction::Persist(rec)
            && record_view(rec) == (members_view(st.spawned@), st.created_at)),
        (SpawnStage::Inserting, SpawnTeamEvent::RecordInserted(Err(e))) => st2.stage is Done
            && rolls_back(a, st.spawned@, None, false, false, e),
        (SpawnStage::Persisting, SpawnTeamEvent::Persisted(Ok(()))) => st2.stage is Done && (
        a matches SpawnTeamAction::Finish { members, statuses } && members_view(members@)
            == members_view(st.spawned@) && statuses@ == st.statuses@),
        (SpawnStage::Persisting, SpawnTeamEvent::Persisted(Err(e))) => st2.stage is Done
            && rolls_back(a, st.spawned@, None, true, true, e),
        _ => st2 == st && a is Unexpected,
    }
}

fn done_state(st: SpawnTeamState) -> (r: SpawnTeamState)
    ensures
        r.stage is Done,
        r.requested == st.requested,
        r.created_at == st.created_at,
        r.wf(),
{
    SpawnTeamState {
        requested: st.requested,
        created_at: st.created_at,
        spawned: Vec::new(),
        statuses: Vec::new(),
        lease: None,
        stage: SpawnStage::Done,
    }
}

/// Goes on with the next member, or records the team once every member is spawned.
fn advance(st: SpawnTeamState) -> (r: (SpawnTeamState, SpawnTeamAction))
    requires
        st.spawned@.len() == st.statuses@.len(),
        st.spawned@.len() <= st.requested@.len(),
        forall|i: int|
            0 <= i < st.spawned@.len() ==> (#[trigger] st.spawned@[i]).name@ == st.requested@[i].0@
                && text_opt_view(st.spawned@[i].agent_type) == text_opt_view(st.requested@[i].1),
        st.lease is None,
    ensures
        r.0.requested == st.requested,
        r.0.created_at == st.created_at,
        r.0.spawned == st.spawned,
        r.0.statuses == st.statuses,
        r.0.lease is None,
        r.0.wf(),
        next_member_action(r.0, r.1),
{
    let i = st.spawned.len();
    if i < st.requested.len() {
        let wants = st.requested[i].2;
        let st2 = SpawnTeamState { stage: SpawnStage::Member, ..st };
        if wants {
            (st2, SpawnTeamAction::CreateWorktree(i))
        } else {
            (st2, SpawnTeamAction::SpawnMember { index: i, cwd: None })
        }
    } else {
        let record = TeamRecord { members: duplicate_members(&st.spawned), created_at: st.created_at };
        let st2 = SpawnTeamState { stage: SpawnStage::Inserting, ..st };
        (st2, SpawnTeamAction::InsertRecord(record))
    }
}

/// The state a team spawn starts in, with its first action, given the requested members
/// (their names trimmed) and the creation time.
pub fn spawn_team_start(members: &Vec<SpawnTeamMemberArgs>, created_at: i64) -> (r: (
    SpawnTeamState,
    SpawnTeamAction,
))
    ensures
        r.0.wf(),
        r.0.created_at == created_at,
        r.0.spawned@.len() == 0,
        r.0.requested@.len() == members@.len(),
        forall|i: int|
            0 <= i < members@.len() ==> (#[trigger] r.0.requested@[i]).0@ == trim(members@[i].name@)
                && text_opt_view(r.0.requested@[i].1) == text_opt_view(members@[i].agent_type)
                && r.0.requested@[i].2 == members@[i].worktree,
        next_member_action(r.0, r.1),
{
    let mut requested: Vec<(String, Option<String>, bool)> = Vec::new();
    let mut i: usize = 0;
    while i < members.len()
        invariant
            i <= members@.len(),
            requested@.len() == i,
            forall|k: int|
                0 <= k < i ==> (#[trigger] requested@[k]).0@ == trim(members@[k].name@)
                    && text_opt_view(requested@[k].1) == text_opt_view(members@[k].agent_type)
                    && requested@[k].2 == members@[k].worktree,
        decreases members@.len() - i,
    {
        let m = &members[i];
        let role = match &m.agent_type {
            Some(t) => Some(t.clone()),
            None => None,
        };
        requested.push((trim_str(m.name.as_str()), role, m.worktree));
        i = i + 1;
    }
    let st = SpawnTeamState {
        requested,
        created_at,
        spawned: Vec::new(),
        statuses: Vec::new(),
        lease: None,
        stage: SpawnStage::Member,
    };
    advance(st)
}

/// What a team spawn does after an event.
pub fn spawn_team_step(st: SpawnTeamState, ev: SpawnTeamEvent) -> (r: (SpawnTeamState, SpawnTeamAction))
    requires
        st.wf(),
    ensures
        r.0.wf(),
        spawn_team_next(st, ev, r.0, r.1),
{
    match (st.stage, ev) {
        (SpawnStage::Member, SpawnTeamEvent::ConfigRejected(e)) => (
            done_state(st),
            SpawnTeamAction::Abort(e),
        ),
        (SpawnStage::Member, SpawnTeamEvent::WorktreeCreated(Ok(l))) => {
            let i = st.spawned.len();
            if st.requested[i].2 && st.lease.is_none() {
                let cwd = Some(l.worktree_path.clone());
                let st2 = SpawnTeamState { lease: Some(l), ..st };
                (st2, SpawnTeamAction::SpawnMember { index: i, cwd })
            } else {
                (st, SpawnTeamAction::Unexpected)
            }
        },
        (SpawnStage::Member, SpawnTeamEvent::WorktreeCreated(Err(e))) => {
            let SpawnTeamState { requested, created_at, spawned, statuses, lease, stage } = st;
            let st2 = SpawnTeamState {
                requested,
                created_at,
                spawned: Vec::new(),
                statuses: Vec::new(),
                lease: None,
                stage: SpawnStage::Done,
            };
            (
                st2,
                SpawnTeamAction::Rollback {
                    spawned,
                    remove_worktree: None,
                    remove_record: false,
                    remove_files: false,
                    error: e,
                },
            )
        },
        (SpawnStage::Member, SpawnTeamEvent::MemberSpawned(Ok((id, status)))) => {
            let SpawnTeamState { requested, created_at, mut spawned, mut statuses, lease, stage } =
                st;
            let i = spawned.len();
            let role = match &requested[i].1 {
                Some(t) => Some(t.clone()),
                None => None,
            };
            let member = TeamMember { name: requested[i].0.clone(), agent_id: id.clone(), agent_type: role };
            let ghost before = spawned@;
            spawned.push(member);
            statuses.push(status);
            proof {
                assert(members_view(spawned@) =~= members_view(before).push(
                    (requested@[i as int].0@, id@, text_opt_view(requested@[i as int].1)),
                ));
            }
            match lease {
                Some(l) => {
                    let st2 = SpawnTeamState {
                        requested,
                        created_at,
                        spawned,
                        statuses,
                        lease: None,
                        stage: SpawnStage::Registering,
                    };
                    (st2, SpawnTeamAction::RegisterLease { agent_id: id, lease: l })
                },
                None => {
                    let st2 = SpawnTeamState {
                        requested,
                        created_at,
                        spawned,
                        statuses,
                        lease: None,
                        stage,
                    };
                    advance(st2)
                },
            }
        },
        (SpawnStage::Member, SpawnTeamEvent::MemberSpawned(Err(e))) => {
            let SpawnTeamState { requested, created_at, spawned, statuses, lease, stage } = st;
            let st2 = SpawnTeamState {
                requested,
                created_at,
                spawned: Vec::new(),
                statuses: Vec::new(),
                lease: None,
                stage: SpawnStage::Done,
            };
            (
                st2,
                SpawnTeamAction::Rollback {
                    spawned,
                    remove_worktree: lease,
                    remove_record: false,
                    remove_files: false,
                    error: e,
                },
            )
        },
        (SpawnStage::Registering, SpawnTeamEvent::LeaseRegistered) => advance(st),
        (SpawnStage::Inserting, SpawnTeamEvent::RecordInserted(Ok(()))) => {
            let record = TeamRecord { members: duplicate_members(&st.spawned), created_at: st.created_at };
            let st2 = SpawnTeamState { stage: SpawnStage::Persisting, ..st };
            (st2, SpawnTeamAction::Persist(record))
        },
        (SpawnStage::Inserting, SpawnTeamEvent::RecordInserted(Err(e))) => {
            let SpawnTeamState { requested, created_at, spawned, statuses, lease, stage } = st;
            let st2 = SpawnTeamState {
                requested,
                created_at,
                spawned: Vec::new(),
                statuses: Vec::new(),
                lease: None,
                stage: SpawnStage::Done,
            };
            (
                st2,
                SpawnTeamAction::Rollback {
                    spawned,
                    remove_worktree: None,
                    remove_record: false,
                    remove_files: false,
                    error: e,
                },
            )
        },
        (SpawnStage::Persisting, SpawnTeamEvent::Persisted(Ok(()))) => {
            let SpawnTeamState { requested, created_at, spawned, statuses, lease, stage } = st;
            let st2 = SpawnTeamState {
                requested,
                created_at,
                spawned: Vec::new(),
                statuses: Vec::new(),
                lease: None,
                stage: SpawnStage::Done,
            };
            (st2, SpawnTeamAction::Finish { members: spawned, statuses })
        },
        (SpawnStage::Persisting, SpawnTeamEvent::Persisted(Err(e))) => {
            let SpawnTeamState { requested, created_at, spawned, statuses, lease, stage } = st;
            let st2 = SpawnTeamState {
                requested,
                created_at,
                spawned: Vec::new(),
                statuses: Vec::new(),
                lease: None,
                stage: SpawnStage::Done,
            };
            (
                st2,
                SpawnTeamAction::Rollback {
                    spawned,
                    remove_worktree: None,
                    remove_record: true,
                    remove_files: true,
                    error: e,
                },
            )
        },
        (_, ev) => (st, SpawnTeamAction::Unexpected),
    }
}

} // verus!
