//! The task board of a team: tasks assigned to members, claimed once their dependencies are
//! completed, and completed once.
use crate::collab::{respond, responds, FunctionCallError};
use crate::teams::{members_view, TeamMember};
use crate::text::{chars_of, push_str, seq_lt, str_eq, string_of, trim, trim_str};
use vstd::prelude::*;

verus! {

/// Where a task stands.
#[derive(Debug, Clone, Copy, PartialEq, Eq, Structural)]
pub enum PersistedTaskState {
    Pending,
    Claimed,
    Completed,
}

/// Who a task is assigned to.
#[derive(Debug)]
pub struct PersistedTeamTaskAssignee {
    pub name: String,
    pub agent_id: String,
}

/// A task of a team, as it is stored.
#[derive(Debug)]
pub struct PersistedTeamTask {
    pub id: String,
    pub title: String,
    pub state: PersistedTaskState,
    pub depends_on: Vec<String>,
    pub assignee: PersistedTeamTaskAssignee,
    pub updated_at: i64,
}

/// The view of a task.
pub struct TaskModel {
    pub id: Seq<char>,
    pub title: Seq<char>,
    pub state: PersistedTaskState,
    pub depends_on: Seq<Seq<char>>,
    pub assignee_name: Seq<char>,
    pub assignee_agent_id: Seq<char>,
    pub updated_at: i64,
}

/// The views of a list of texts.
pub open spec fn texts(v: Seq<String>) -> Seq<Seq<char>> {
    v.map_values(|s: String| s@)
}

/// The view of a task.
pub open spec fn task_view(t: PersistedTeamTask) -> TaskModel {
    TaskModel {
        id: t.id@,
        title: t.title@,
        state: t.state,
        depends_on: texts(t.depends_on@),
        assignee_name: t.assignee.name@,
        assignee_agent_id: t.assignee.agent_id@,
        updated_at: t.updated_at,
    }
}

/// The views of a list of tasks.
pub open spec fn tasks_view(v: Seq<PersistedTeamTask>) -> Seq<TaskModel> {
    v.map_values(|t: PersistedTeamTask| task_view(t))
}

/// A task as the task tools report it.
#[derive(Debug)]
pub struct TeamTaskOutput {
    pub task_id: String,
    pub title: String,
    pub state: PersistedTaskState,
    pub depends_on: Vec<String>,
    pub assignee_name: String,
    pub assignee_agent_id: String,
    pub updated_at: i64,
}

impl From<PersistedTeamTask> for TeamTaskOutput {
    fn from(value: PersistedTeamTask) -> (r: Self) {
        TeamTaskOutput {
            task_id: value.id,
            title: value.title,
            state: value.state,
            depends_on: value.depends_on,
            assignee_name: value.assignee.name,
            assignee_agent_id: value.assignee.agent_id,
            updated_at: value.updated_at,
        }
    }
}

impl vstd::std_specs::convert::FromSpecImpl<PersistedTeamTask> for TeamTaskOutput {
    open spec fn obeys_from_spec() -> bool {
        true
    }

    open spec fn from_spec(value: PersistedTeamTask) -> Self {
        TeamTaskOutput {
            task_id: value.id,
            title: value.title,
            state: value.state,
            depends_on: value.depends_on,
            assignee_name: value.assignee.name,
            assignee_agent_id: value.assignee.agent_id,
            updated_at: value.updated_at,
        }
    }
}

/// Some task among `tasks` has the identifier `id` and is completed.
pub open spec fn completed_in(tasks: Seq<TaskModel>, id: Seq<char>) -> bool {
    exists|c: int|
        0 <= c < tasks.len() && (#[trigger] tasks[c]).id == id && tasks[c].state
            == PersistedTaskState::Completed
}

/// Every task that `t` depends on is among `tasks` and completed.
pub open spec fn spec_dependencies_satisfied(t: TaskModel, tasks: Seq<TaskModel>) -> bool {
    forall|d: int| 0 <= d < t.depends_on.len() ==> completed_in(tasks, #[trigger] t.depends_on[d])
}

fn completed_with_id(tasks: &Vec<PersistedTeamTask>, id: &str) -> (r: bool)
    ensures
        r == completed_in(tasks_view(tasks@), id@),
{
    let ghost tv = tasks_view(tasks@);
    let mut i: usize = 0;
    while i < tasks.len()
        invariant
            i <= tasks@.len(),
            tv == tasks_view(tasks@),
            forall|c: int|
                0 <= c < i ==> !((#[trigger] tv[c]).id == id@ && tv[c].state
                    == PersistedTaskState::Completed),
        decreases tasks@.len() - i,
    {
        if str_eq(tasks[i].id.as_str(), id) && tasks[i].state == PersistedTaskState::Completed {
            assert(tv[i as int].id == id@);
            return true;
        }
        assert(tv[i as int].id == tasks@[i as int].id@);
        i = i + 1;
    }
    false
}

/// Whether every task that `task` depends on is among `tasks` and completed.
pub fn dependencies_satisfied(task: &PersistedTeamTask, tasks: &Vec<PersistedTeamTask>) -> (r: bool)
    ensures
        r == spec_dependencies_satisfied(task_view(*task), tasks_view(tasks@)),
{
    let ghost t = task_view(*task);
    let ghost tv = tasks_view(tasks@);
    let mut i: usize = 0;
    while i < task.depends_on.len()
        invariant
            i <= task.depends_on@.len(),
            t == task_view(*task),
            tv == tasks_view(tasks@),
            forall|d: int| 0 <= d < i ==> completed_in(tv, #[trigger] t.depends_on[d]),
        decreases task.depends_on@.len() - i,
    {
        assert(t.depends_on[i as int] == task.depends_on@[i as int]@);
        if !completed_with_id(tasks, task.depends_on[i].as_str()) {
            return false;
        }
        i = i + 1;
    }
    true
}

fn task_message(id: &str, suffix: &str) -> (e: FunctionCallError)
    ensures
        responds(e, "task `"@ + id@ + suffix@),
{
    let mut out = chars_of("task `");
    push_str(&mut out, id);
    push_str(&mut out, suffix);
    respond(string_of(out.as_slice()))
}

/// The task with a new state and update time.
pub open spec fn with_state(t: TaskModel, s: PersistedTaskState, now: i64) -> TaskModel {
    TaskModel { state: s, updated_at: now, ..t }
}

/// Claiming a task: only a pending task whose dependencies are completed can be claimed; it
/// becomes claimed at `now`. Otherwise the refusal says why.
pub open spec fn spec_claim(t: TaskModel, tasks: Seq<TaskModel>, now: i64) -> Result<TaskModel, Seq<char>> {
    match t.state {
        PersistedTaskState::Claimed => Err("task `"@ + t.id + "` is already claimed"@),
        PersistedTaskState::Completed => Err("task `"@ + t.id + "` is already completed"@),
        PersistedTaskState::Pending => if spec_dependencies_satisfied(t, tasks) {
            Ok(with_state(t, PersistedTaskState::Claimed, now))
        } else {
            Err("task `"@ + t.id + "` has unresolved dependencies"@)
        },
    }
}

/// Claims a task, given the team's tasks, at time `now`.
pub fn claim_task(task: PersistedTeamTask, tasks: &Vec<PersistedTeamTask>, now: i64) -> (r: Result<
    PersistedTeamTask,
    FunctionCallError,
>)
    ensures
        match spec_claim(task_view(task), tasks_view(tasks@), now) {
            Ok(m) => r matches Ok(t) && task_view(t) == m,
            Err(msg) => r matches Err(e) && responds(e, msg),
        },
{
    match task.state {
        PersistedTaskState::Pending => {},
        PersistedTaskState::Claimed => {
            return Err(task_message(task.id.as_str(), "` is already claimed"));
        },
        PersistedTaskState::Completed => {
            return Err(task_message(task.id.as_str(), "` is already completed"));
        },
    }
    if !dependencies_satisfied(&task, tasks) {
        return Err(task_message(task.id.as_str(), "` has unresolved dependencies"));
    }
    let mut task = task;
    task.state = PersistedTaskState::Claimed;
    task.updated_at = now;
    Ok(task)
}

/// Completing a task: a task can be completed once; it becomes completed at `now`.
pub open spec fn spec_complete(t: TaskModel, now: i64) -> Result<TaskModel, Seq<char>> {
    if t.state == PersistedTaskState::Completed {
        Err("task `"@ + t.id + "` is already completed"@)
    } else {
        Ok(with_state(t, PersistedTaskState::Completed, now))
    }
}

/// Completes a task at time `now`.
pub fn complete_task(task: PersistedTeamTask, now: i64) -> (r: Result<PersistedTeamTask, FunctionCallError>)
    ensures
        match spec_complete(task_view(task), now) {
            Ok(m) => r matches Ok(t) && task_view(t) == m,
            Err(msg) => r matches Err(e) && responds(e, msg),
        },
{
    if task.state == PersistedTaskState::Completed {
        return Err(task_message(task.id.as_str(), "` is already completed"));
    }
    let mut task = task;
    task.state = PersistedTaskState::Completed;
    task.updated_at = now;
    Ok(task)
}

/// The task at `i` can be claimed next for `target` (name and agent; any member when none):
/// it is pending, assigned to the target, and its dependencies are completed.
pub open spec fn claimable_for(
    tasks: Seq<TaskModel>,
    i: int,
    target: Option<(Seq<char>, Seq<char>)>,
) -> bool {
    &&& tasks[i].state == PersistedTaskState::Pending
    &&& (target matches Some((n, a)) ==> tasks[i].assignee_name == n && tasks[i].assignee_agent_id
        == a)
    &&& spec_dependencies_satisfied(tasks[i], tasks)
}

/// The first task that can be claimed next for `target`, if any.
pub fn select_next_task(tasks: &Vec<PersistedTeamTask>, target: &Option<TeamMember>) -> (r: Option<
    usize,
>)
    ensures
        ({
            let tv = tasks_view(tasks@);
            let tg = match target {
                Some(m) => Some((m.name@, m.agent_id@)),
                None => None,
            };
            &&& r matches Some(i) ==> i < tasks@.len() && claimable_for(tv, i as int, tg)
                && forall|j: int| 0 <= j < i ==> !claimable_for(tv, j, tg)
            &&& r is None ==> forall|j: int| 0 <= j < tasks@.len() ==> !claimable_for(tv, j, tg)
        }),
{
    let ghost tv = tasks_view(tasks@);
    let ghost tg = match target {
        Some(m) => Some((m.name@, m.agent_id@)),
        None => None,
    };
    let mut i: usize = 0;
    while i < tasks.len()
        invariant
            i <= tasks@.len(),
            tv == tasks_view(tasks@),
            tg == match target {
                Some(m) => Some((m.name@, m.agent_id@)),
                None => None,
            },
            forall|j: int| 0 <= j < i ==> !claimable_for(tv, j, tg),
        decreases tasks@.len() - i,
    {
        let c = &tasks[i];
        assert(tv[i as int] == task_view(*c));
        let mut eligible = c.state == PersistedTaskState::Pending;
        if eligible {
            match target {
                Some(m) => {
                    if !str_eq(c.assignee.name.as_str(), m.name.as_str()) || !str_eq(
                        c.assignee.agent_id.as_str(),
                        m.agent_id.as_str(),
                    ) {
                        eligible = false;
                    }
                },
                None => {},
            }
        }
        if eligible && dependencies_satisfied(c, tasks) {
            return Some(i);
        }
        i = i + 1;
    }
    None
}

/// The tasks of members that are still in the team (by agent), in order, as reported.
pub fn tasks_of_members(tasks: Vec<PersistedTeamTask>, members: &Vec<TeamMember>) -> (r: Vec<
    TeamTaskOutput,
>)
    ensures
        r@.len() == tasks_view(tasks@).filter(
            |t: TaskModel| members_view(members@).map_values(|m: (Seq<char>, Seq<char>, Option<Seq<char>>)| m.1).contains(
                t.assignee_agent_id,
            ),
        ).len(),
        forall|i: int|
            0 <= i < r@.len() ==> {
                let t = tasks_view(tasks@).filter(
                    |t: TaskModel| members_view(members@).map_values(
                        |m: (Seq<char>, Seq<char>, Option<Seq<char>>)| m.1,
                    ).contains(t.assignee_agent_id),
                )[i];
                &&& (#[trigger] r@[i]).task_id@ == t.id
                &&& r@[i].title@ == t.title
                &&& r@[i].state == t.state
                &&& texts(r@[i].depends_on@) == t.depends_on
                &&& r@[i].assignee_name@ == t.assignee_name
                &&& r@[i].assignee_agent_id@ == t.assignee_agent_id
                &&& r@[i].updated_at == t.updated_at
            },
{
    let ghost ids = members_view(members@).map_values(
        |m: (Seq<char>, Seq<char>, Option<Seq<char>>)| m.1,
    );
    let ghost keep = |t: TaskModel| ids.contains(t.assignee_agent_id);
    let ghost all = tasks_view(tasks@);
    let mut tasks = tasks;
    let mut rev: Vec<TeamTaskOutput> = Vec::new();
    let mut n: usize = tasks.len();
    while tasks.len() > 0
        invariant
            n == tasks@.len(),
            n <= all.len(),
            tasks_view(tasks@) == all.take(n as int),
            keep == (|t: TaskModel| ids.contains(t.assignee_agent_id)),
            ids == members_view(members@).map_values(
                |m: (Seq<char>, Seq<char>, Option<Seq<char>>)| m.1,
            ),
            all.skip(n as int).filter(keep).len() == rev@.len(),
            forall|i: int|
                0 <= i < rev@.len() ==> {
                    let t = all.skip(n as int).filter(keep)[rev@.len() - 1 - i];
                    &&& (#[trigger] rev@[i]).task_id@ == t.id
                    &&& rev@[i].title@ == t.title
                    &&& rev@[i].state == t.state
                    &&& texts(rev@[i].depends_on@) == t.depends_on
                    &&& rev@[i].assignee_name@ == t.assignee_name
                    &&& rev@[i].assignee_agent_id@ == t.assignee_agent_id
                    &&& rev@[i].updated_at == t.updated_at
                },
        decreases n,
    {
        let ghost before = tasks@;
        let t = tasks.pop().unwrap();
        n = n - 1;
        let ghost tm = task_view(t);
        assert(before =~= tasks@.push(t));
        assert(tasks_view(before) =~= tasks_view(tasks@).push(tm));
        assert(all.take(n as int) =~= tasks_view(tasks@)) by {
            assert(all.take(n as int) =~= all.take(n + 1).drop_last());
        }
        assert(all[n as int] == tm) by {
            assert(all.take(n + 1)[n as int] == all[n as int]);
        }
        assert(all.skip(n as int) =~= seq![tm] + all.skip(n + 1));
        proof {
            all.skip(n + 1).lemma_filter_prepend(tm, keep);
            assert(Seq::<TaskModel>::empty() + all.skip(n + 1).filter(keep) =~= all.skip(n + 1).filter(keep));
        }
        if is_member_agent(members, t.assignee.agent_id.as_str()) {
            rev.push(TeamTaskOutput::from(t));
        }
    }
    assert(all.skip(0) =~= all);
    let mut out: Vec<TeamTaskOutput> = Vec::new();
    let ghost kept = all.filter(keep);
    while rev.len() > 0
        invariant
            kept == all.filter(keep),
            rev@.len() + out@.len() == kept.len(),
            forall|i: int|
                0 <= i < rev@.len() ==> {
                    let t = kept[kept.len() - 1 - i];
                    &&& (#[trigger] rev@[i]).task_id@ == t.id
                    &&& rev@[i].title@ == t.title
                    &&& rev@[i].state == t.state
                    &&& texts(rev@[i].depends_on@) == t.depends_on
                    &&& rev@[i].assignee_name@ == t.assignee_name
                    &&& rev@[i].assignee_agent_id@ == t.assignee_agent_id
                    &&& rev@[i].updated_at == t.updated_at
                },
            forall|i: int|
                0 <= i < out@.len() ==> {
                    let t = kept[i];
                    &&& (#[trigger] out@[i]).task_id@ == t.id
                    &&& out@[i].title@ == t.title
                    &&& out@[i].state == t.state
                    &&& texts(out@[i].depends_on@) == t.depends_on
                    &&& out@[i].assignee_name@ == t.assignee_name
                    &&& out@[i].assignee_agent_id@ == t.assignee_agent_id
                    &&& out@[i].updated_at == t.updated_at
                },
        decreases rev@.len(),
    {
        let x = rev.pop().unwrap();
        out.push(x);
    }
    out
}

fn is_member_agent(members: &Vec<TeamMember>, agent_id: &str) -> (r: bool)
    ensures
        r == members_view(members@).map_values(|m: (Seq<char>, Seq<char>, Option<Seq<char>>)| m.1).contains(
            agent_id@,
        ),
{
    let ghost ids = members_view(members@).map_values(
        |m: (Seq<char>, Seq<char>, Option<Seq<char>>)| m.1,
    );
    let mut i: usize = 0;
    while i < members.len()
        invariant
            i <= members@.len(),
            ids == members_view(members@).map_values(
                |m: (Seq<char>, Seq<char>, Option<Seq<char>>)| m.1,
            ),
            forall|j: int| 0 <= j < i ==> ids[j] != agent_id@,
        decreases members@.len() - i,
    {
        assert(ids[i as int] == members@[i as int].agent_id@);
        if str_eq(members[i].agent_id.as_str(), agent_id) {
            return true;
        }
        i = i + 1;
    }
    false
}

/// The tasks created with a team: one pending task per member, titled with the member's task
/// (trimmed), with the given identifier, assigned to the spawned member, at time `updated_at`.
pub fn build_initial_team_tasks(
    tasks: &Vec<String>,
    spawned: &Vec<TeamMember>,
    ids: Vec<String>,
    updated_at: i64,
) -> (r: Vec<PersistedTeamTask>)
    requires
        ids@.len() >= tasks@.len(),
        ids@.len() >= spawned@.len(),
    ensures
        r@.len() == if tasks@.len() < spawned@.len() {
            tasks@.len()
        } else {
            spawned@.len()
        },
        forall|i: int|
            0 <= i < r@.len() ==> {
                let t = task_view(#[trigger] r@[i]);
                &&& t.id == ids@[i]@
                &&& t.title == trim(tasks@[i]@)
                &&& t.state == PersistedTaskState::Pending
                &&& t.depends_on.len() == 0
                &&& t.assignee_name == spawned@[i].name@
                &&& t.assignee_agent_id == spawned@[i].agent_id@
                &&& t.updated_at == updated_at
            },
{
    let n = if tasks.len() < spawned.len() {
        tasks.len()
    } else {
        spawned.len()
    };
    let mut out: Vec<PersistedTeamTask> = Vec::new();
    let mut i: usize = 0;
    while i < n
        invariant
            i <= n,
            n <= tasks@.len(),
            n <= spawned@.len(),
            n <= ids@.len(),
            out@.len() == i,
            forall|j: int|
                0 <= j < i ==> {
                    let t = task_view(#[trigger] out@[j]);
                    &&& t.id == ids@[j]@
                    &&& t.title == trim(tasks@[j]@)
                    &&& t.state == PersistedTaskState::Pending
                    &&& t.depends_on.len() == 0
                    &&& t.assignee_name == spawned@[j].name@
                    &&& t.assignee_agent_id == spawned@[j].agent_id@
                    &&& t.updated_at == updated_at
                },
        decreases n - i,
    {
        let task = PersistedTeamTask {
            id: ids[i].clone(),
            title: trim_str(tasks[i].as_str()),
            state: PersistedTaskState::Pending,
            depends_on: Vec::new(),
            assignee: PersistedTeamTaskAssignee {
                name: spawned[i].name.clone(),
                agent_id: spawned[i].agent_id.clone(),
            },
            updated_at,
        };
        out.push(task);
        i = i + 1;
    }
    out
}

/// Claiming and completing keep a task's history in order: a task is claimed at most once and
/// completed at most once; a claimed task can be completed; a completed task can be neither
/// claimed nor completed again; and both keep everything of the task but its state and time.
pub proof fn law_task_lifecycle(t: TaskModel, tasks: Seq<TaskModel>, now: i64, later: i64)
    ensures
        spec_claim(t, tasks, now) matches Ok(c) ==> {
            &&& t.state == PersistedTaskState::Pending
            &&& c == with_state(t, PersistedTaskState::Claimed, now)
            &&& spec_claim(c, tasks, later) is Err
            &&& spec_complete(c, later) == Ok::<TaskModel, Seq<char>>(
                with_state(t, PersistedTaskState::Completed, later),
            )
        },
        spec_complete(t, now) matches Ok(d) ==> {
            &&& spec_complete(d, later) is Err
            &&& spec_claim(d, tasks, later) is Err
        },
{
}

/// The tasks are in order of their identifiers.
pub open spec fn sorted_by_id(s: Seq<PersistedTeamTask>) -> bool {
    forall|i: int, j: int| 0 <= i < j < s.len() ==> !seq_lt(#[trigger] s[j].id@, #[trigger] s[i].id@)
}

/// The tasks in order of their identifiers (characters compared in turn, as `String`'s order
/// compares them).
#[verifier::spinoff_prover]
pub fn sort_tasks_by_id(tasks: Vec<PersistedTeamTask>) -> (r: Vec<PersistedTeamTask>)
    ensures
        sorted_by_id(r@),
        r@.to_multiset() == tasks@.to_multiset(),
{
    broadcast use vstd::seq_lib::group_to_multiset_ensures;
    let mut rest = tasks;
    let ghost all = rest@;
    let mut out: Vec<PersistedTeamTask> = Vec::new();
    while rest.len() > 0
        invariant
            sorted_by_id(out@),
            out@.to_multiset().add(rest@.to_multiset()) == all.to_multiset(),
        decreases rest@.len(),
    {
        let ghost before = rest@;
        let x = rest.pop().unwrap();
        assert(before =~= rest@.push(x));
        let xid = crate::text::chars_of(x.id.as_str());
        let mut p: usize = 0;
        while p < out.len()
            invariant
                p <= out@.len(),
                xid@ == x.id@,
                forall|m: int| 0 <= m < p ==> seq_lt(#[trigger] out@[m].id@, x.id@),
            ensures
                p <= out@.len(),
                forall|m: int| 0 <= m < p ==> seq_lt(#[trigger] out@[m].id@, x.id@),
                p < out@.len() ==> !seq_lt(out@[p as int].id@, x.id@),
            decreases out@.len() - p,
        {
            let cur = crate::text::chars_of(out[p].id.as_str());
            if !crate::text::chars_lt(cur.as_slice(), xid.as_slice()) {
                break;
            }
            p = p + 1;
        }
        let ghost old_out = out@;
        let ghost xv = x;
        proof {
            if p < old_out.len() {
                assert(!seq_lt(old_out[p as int].id@, x.id@));
            }
        }
        out.insert(p, x);
        proof {
            assert(out@ == old_out.insert(p as int, xv));
            vstd::seq_lib::to_multiset_insert(old_out, p as int, xv);
            vstd::seq_lib::to_multiset_build(rest@, xv);
            broadcast use vstd::multiset::group_multiset_axioms;
            assert(out@.to_multiset().add(rest@.to_multiset()) =~= old_out.to_multiset().add(
                before.to_multiset(),
            ));
            assert forall|i: int, j: int| 0 <= i < j < out@.len() implies !seq_lt(
                #[trigger] out@[j].id@,
                #[trigger] out@[i].id@,
            ) by {
                if j < p {
                    assert(out@[i] == old_out[i] && out@[j] == old_out[j]);
                } else if j == p {
                    assert(out@[i] == old_out[i]);
                    assert(seq_lt(old_out[i].id@, xv.id@));
                    crate::text::lemma_seq_lt_irrefl(xv.id@);
                    if seq_lt(xv.id@, old_out[i].id@) {
                        crate::text::lemma_seq_lt_trans(xv.id@, old_out[i].id@, xv.id@);
                    }
                } else if i == p {
                    assert(out@[j] == old_out[j - 1]);
                    assert(!seq_lt(old_out[p as int].id@, xv.id@));
                    if seq_lt(old_out[j - 1].id@, xv.id@) {
                        if j - 1 > p {
                            assert(!seq_lt(old_out[j - 1].id@, old_out[p as int].id@));
                            crate::text::lemma_seq_lt_total(old_out[p as int].id@, xv.id@);
                            if seq_lt(xv.id@, old_out[p as int].id@) {
                                crate::text::lemma_seq_lt_trans(
                                    old_out[j - 1].id@,
                                    xv.id@,
                                    old_out[p as int].id@,
                                );
                            }
                        }
                    }
                } else if i < p {
                    assert(out@[i] == old_out[i] && out@[j] == old_out[j - 1]);
                    if i == j - 1 {
                        crate::text::lemma_seq_lt_irrefl(old_out[i].id@);
                    }
                } else {
                    assert(out@[i] == old_out[i - 1] && out@[j] == old_out[j - 1]);
                }
            }
        }
    }
    out
}

/// Some task of the board has the identifier `id` and is completed.
pub open spec fn some_completed(tasks: Seq<TaskModel>, id: Seq<char>) -> bool {
    exists|c: int|
        #![trigger tasks[c]]
        0 <= c < tasks.len() && tasks[c].id == id && tasks[c].state == PersistedTaskState::Completed
}

/// A pending task can be claimed exactly when each task it depends on is named by some task
/// of the board whose state is `Completed`; a dependency that no completed task names keeps it
/// unclaimable, and the refusal says so.
pub proof fn law_claim_needs_completed_dependencies(t: TaskModel, tasks: Seq<TaskModel>, now: i64)
    requires
        t.state == PersistedTaskState::Pending,
    ensures
        spec_claim(t, tasks, now) is Ok <==> forall|d: int|
            0 <= d < t.depends_on.len() ==> #[trigger] some_completed(tasks, t.depends_on[d]),
        (exists|d: int|
            0 <= d < t.depends_on.len() && !#[trigger] some_completed(tasks, t.depends_on[d]))
            ==> spec_claim(t, tasks, now) == Err::<TaskModel, Seq<char>>(
            "task `"@ + t.id + "` has unresolved dependencies"@,
        ),
        spec_claim(t, tasks, now) matches Ok(c) ==> c.state == PersistedTaskState::Claimed
            && c.updated_at == now,
{
    assert forall|id: Seq<char>| #[trigger] some_completed(tasks, id) <==> completed_in(tasks, id) by {
        if some_completed(tasks, id) {
            let c = choose|c: int|
                #![trigger tasks[c]]
                0 <= c < tasks.len() && tasks[c].id == id && tasks[c].state
                    == PersistedTaskState::Completed;
            assert(completed_in(tasks, id));
        }
    }
    let all = forall|d: int|
        0 <= d < t.depends_on.len() ==> #[trigger] some_completed(tasks, t.depends_on[d]);
    if all {
        assert forall|d: int| 0 <= d < t.depends_on.len() implies completed_in(
            tasks,
            #[trigger] t.depends_on[d],
        ) by {
            assert(some_completed(tasks, t.depends_on[d]));
        }
        assert(spec_dependencies_satisfied(t, tasks));
    } else {
        let d = choose|d: int|
            0 <= d < t.depends_on.len() && !#[trigger] some_completed(tasks, t.depends_on[d]);
        assert(!completed_in(tasks, t.depends_on[d]));
        assert(!spec_dependencies_satisfied(t, tasks));
    }
}

/// A dependency whose named tasks are all pending or claimed (or that names no task) is not
/// completed on the board.
pub proof fn law_unfinished_dependency_not_completed(tasks: Seq<TaskModel>, id: Seq<char>)
    requires
        forall|c: int|
            #![trigger tasks[c]]
            0 <= c < tasks.len() && tasks[c].id == id ==> tasks[c].state != PersistedTaskState::Completed,
    ensures
        !some_completed(tasks, id),
{
}

} // verus!
