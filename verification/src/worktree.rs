//! Git worktrees for agents: where they go, the git commands that make and remove them, and
//! the leases that tie a worktree to the agent that works in it. Paths are held as text.
use crate::collab::{respond, responds, FunctionCallError};
use crate::hooks::types::HookResponse;
use crate::paths::{join, join2, spec_join};
use crate::text::{chars_contain, chars_of, owned, push_str, str_eq, string_of};
use vstd::prelude::*;

verus! {

/// A worktree made for an agent, and the repository it belongs to.
#[derive(Debug)]
pub struct WorktreeLease {
    pub repo_root: String,
    pub worktree_path: String,
}

/// Where the worktrees of a lead's agents go: `<home>/worktrees/<lead>`.
pub fn worktree_root(codex_home: &str, lead_thread_id: &str) -> (r: String)
    ensures
        r@ == spec_join(spec_join(codex_home@, "worktrees"@), lead_thread_id@),
{
    join2(codex_home, "worktrees", lead_thread_id)
}

/// The git arguments that add a detached worktree at `HEAD`.
pub fn worktree_add_args(repo_root: &str, worktree_path: &str) -> (r: Vec<String>)
    ensures
        r@.len() == 7,
        r@[0]@ == "-C"@ && r@[1]@ == repo_root@ && r@[2]@ == "worktree"@ && r@[3]@ == "add"@
            && r@[4]@ == "--detach"@ && r@[5]@ == worktree_path@ && r@[6]@ == "HEAD"@,
{
    let mut v: Vec<String> = Vec::new();
    v.push(owned("-C"));
    v.push(owned(repo_root));
    v.push(owned("worktree"));
    v.push(owned("add"));
    v.push(owned("--detach"));
    v.push(owned(worktree_path));
    v.push(owned("HEAD"));
    v
}

/// The git arguments that force the removal of a worktree.
pub fn worktree_remove_args(repo_root: &str, worktree_path: &str) -> (r: Vec<String>)
    ensures
        r@.len() == 6,
        r@[0]@ == "-C"@ && r@[1]@ == repo_root@ && r@[2]@ == "worktree"@ && r@[3]@ == "remove"@
            && r@[4]@ == "--force"@ && r@[5]@ == worktree_path@,
{
    let mut v: Vec<String> = Vec::new();
    v.push(owned("-C"));
    v.push(owned(repo_root));
    v.push(owned("worktree"));
    v.push(owned("remove"));
    v.push(owned("--force"));
    v.push(owned(worktree_path));
    v
}

/// Whether a failed removal only says that the worktree is already gone.
pub fn removal_error_ignored(err_text: &str) -> (r: bool)
    ensures
        r == (crate::text::contains(err_text@, "is not a working tree"@) || crate::text::contains(
            err_text@,
            "No such file or directory"@,
        ) || crate::text::contains(err_text@, "does not exist"@)),
{
    let t = chars_of(err_text);
    let a = chars_of("is not a working tree");
    let b = chars_of("No such file or directory");
    let c = chars_of("does not exist");
    chars_contain(t.as_slice(), a.as_slice()) || chars_contain(t.as_slice(), b.as_slice())
        || chars_contain(t.as_slice(), c.as_slice())
}

/// The error of a worktree that could not be made: `failed to create worktree `<path>`: <git>`.
pub fn worktree_create_error(worktree_path: &str, git_error: &str) -> (e: FunctionCallError)
    ensures
        responds(e, "failed to create worktree `"@ + worktree_path@ + "`: "@ + git_error@),
{
    let mut m = chars_of("failed to create worktree `");
    push_str(&mut m, worktree_path);
    push_str(&mut m, "`: ");
    push_str(&mut m, git_error);
    respond(string_of(m.as_slice()))
}

/// The error of a worktree that could not be removed: `failed to remove worktree `<path>`:
/// <git>`.
pub fn worktree_remove_error(worktree_path: &str, git_error: &str) -> (r: String)
    ensures
        r@ == "failed to remove worktree `"@ + worktree_path@ + "`: "@ + git_error@,
{
    let mut m = chars_of("failed to remove worktree `");
    push_str(&mut m, worktree_path);
    push_str(&mut m, "`: ");
    push_str(&mut m, git_error);
    string_of(m.as_slice())
}

/// The context that worktree hooks add: the additional context of every response, in order.
/// Their errors and blocking decisions do not stop the worktree.
pub fn worktree_hook_context(responses: &Vec<HookResponse>) -> (r: Vec<String>)
    ensures
        crate::hooks::registry::strings_view(r@) == responses@.fold_left(
            Seq::<Seq<char>>::empty(),
            |acc: Seq<Seq<char>>, x: HookResponse| acc + crate::hooks::registry::strings_view(
                x.result.additional_context@,
            ),
        ),
{
    let mut out: Vec<String> = Vec::new();
    let mut i: usize = 0;
    while i < responses.len()
        invariant
            i <= responses@.len(),
            crate::hooks::registry::strings_view(out@) == responses@.take(i as int).fold_left(
                Seq::<Seq<char>>::empty(),
                |acc: Seq<Seq<char>>, x: HookResponse| acc + crate::hooks::registry::strings_view(
                    x.result.additional_context@,
                ),
            ),
        decreases responses@.len() - i,
    {
        let ctx = &responses[i].result.additional_context;
        let ghost before = out@;
        let mut j: usize = 0;
        while j < ctx.len()
            invariant
                j <= ctx@.len(),
                out@ == before + ctx@.take(j as int),
            decreases ctx@.len() - j,
        {
            out.push(ctx[j].clone());
            assert(before + ctx@.take(j + 1) =~= (before + ctx@.take(j as int)).push(ctx@[j as int]));
            j = j + 1;
        }
        proof {
            assert(ctx@.take(ctx@.len() as int) =~= ctx@);
            assert(responses@.take(i + 1).drop_last() =~= responses@.take(i as int));
            assert(crate::hooks::registry::strings_view(before + ctx@) =~= crate::hooks::registry::strings_view(
                before,
            ) + crate::hooks::registry::strings_view(ctx@));
        }
        i = i + 1;
    }
    assert(responses@.take(responses@.len() as int) =~= responses@);
    out
}

/// The worktree leases of agents, one per agent.
pub struct WorktreeLeases {
    pub entries: Vec<(String, WorktreeLease)>,
}

/// No agent has two leases.
pub open spec fn leases_wf(e: Seq<(String, WorktreeLease)>) -> bool {
    forall|i: int, j: int|
        0 <= i < e.len() && 0 <= j < e.len() && i != j ==> (#[trigger] e[i]).0@ != (#[trigger] e[j]).0@
}

/// The lease of an agent: its repository and worktree.
pub open spec fn spec_lease_of(e: Seq<(String, WorktreeLease)>, agent: Seq<char>) -> Option<
    (Seq<char>, Seq<char>),
> {
    if exists|i: int| 0 <= i < e.len() && e[i].0@ == agent {
        let i = choose|i: int| 0 <= i < e.len() && e[i].0@ == agent;
        Some((e[i].1.repo_root@, e[i].1.worktree_path@))
    } else {
        None
    }
}

proof fn lemma_lease_at(e: Seq<(String, WorktreeLease)>, i: int)
    requires
        leases_wf(e),
        0 <= i < e.len(),
    ensures
        spec_lease_of(e, e[i].0@) == Some((e[i].1.repo_root@, e[i].1.worktree_path@)),
{
    let k = choose|k: int| 0 <= k < e.len() && e[k].0@ == e[i].0@;
    if k != i {
        assert(e[k].0@ != e[i].0@);
    }
}

impl WorktreeLeases {
    /// No leases.
    pub fn new() -> (r: WorktreeLeases)
        ensures
            r.entries@.len() == 0,
    {
        WorktreeLeases { entries: Vec::new() }
    }

    fn position(&self, agent_id: &str) -> (r: Option<usize>)
        ensures
            r matches Some(i) ==> i < self.entries@.len() && self.entries@[i as int].0@ == agent_id@,
            r is None ==> forall|i: int| 0 <= i < self.entries@.len() ==> self.entries@[i].0@ != agent_id@,
    {
        let mut i: usize = 0;
        while i < self.entries.len()
            invariant
                i <= self.entries@.len(),
                forall|k: int| 0 <= k < i ==> self.entries@[k].0@ != agent_id@,
            decreases self.entries@.len() - i,
        {
            if str_eq(self.entries[i].0.as_str(), agent_id) {
                return Some(i);
            }
            i = i + 1;
        }
        None
    }

    /// Records the lease of an agent, replacing one it had.
    pub fn register_worktree_lease(&mut self, agent_id: &str, lease: WorktreeLease)
        requires
            leases_wf(old(self).entries@),
        ensures
            leases_wf(final(self).entries@),
            forall|a: Seq<char>|
                #[trigger] spec_lease_of(final(self).entries@, a) == if a == agent_id@ {
                    Some((lease.repo_root@, lease.worktree_path@))
                } else {
                    spec_lease_of(old(self).entries@, a)
                },
    {
        let _ = self.take_worktree_lease(agent_id);
        let ghost before = self.entries@;
        let ghost lv = (lease.repo_root@, lease.worktree_path@);
        self.entries.push((owned(agent_id), lease));
        proof {
            let e = self.entries@;
            assert forall|i: int, j: int|
                0 <= i < e.len() && 0 <= j < e.len() && i != j implies (#[trigger] e[i]).0@ != (
                #[trigger] e[j]).0@ by {
                if i < before.len() && j < before.len() {
                    assert(e[i] == before[i] && e[j] == before[j]);
                } else if i < before.len() {
                    assert(e[i] == before[i]);
                    assert(spec_lease_of(before, agent_id@) is None);
                } else {
                    assert(e[j] == before[j]);
                    assert(spec_lease_of(before, agent_id@) is None);
                }
            }
            assert forall|a: Seq<char>|
                #[trigger] spec_lease_of(e, a) == if a == agent_id@ {
                    Some(lv)
                } else {
                    spec_lease_of(before, a)
                } by {
                if a == agent_id@ {
                    lemma_lease_at(e, e.len() - 1);
                } else if exists|i: int| 0 <= i < before.len() && before[i].0@ == a {
                    let k = choose|i: int| 0 <= i < before.len() && before[i].0@ == a;
                    assert(e[k] == before[k]);
                    lemma_lease_at(e, k);
                    lemma_lease_at(before, k);
                } else {
                    assert forall|i: int| !(0 <= i < e.len() && e[i].0@ == a) by {
                        if 0 <= i < before.len() {
                            assert(e[i] == before[i]);
                        }
                    }
                }
            }
        }
    }

    /// Takes the lease of an agent away, giving it back if there was one.
    pub fn take_worktree_lease(&mut self, agent_id: &str) -> (r: Option<WorktreeLease>)
        requires
            leases_wf(old(self).entries@),
        ensures
            leases_wf(final(self).entries@),
            match r {
                Some(l) => spec_lease_of(old(self).entries@, agent_id@) == Some(
                    (l.repo_root@, l.worktree_path@),
                ),
                None => spec_lease_of(old(self).entries@, agent_id@) is None,
            },
            forall|a: Seq<char>|
                #[trigger] spec_lease_of(final(self).entries@, a) == if a == agent_id@ {
                    None
                } else {
                    spec_lease_of(old(self).entries@, a)
                },
    {
        match self.position(agent_id) {
            None => None,
            Some(i) => {
                let ghost before = self.entries@;
                proof {
                    lemma_lease_at(before, i as int);
                }
                let (_, lease) = self.entries.remove(i);
                proof {
                    let e = self.entries@;
                    assert forall|x: int, y: int|
                        0 <= x < e.len() && 0 <= y < e.len() && x != y implies (#[trigger] e[x]).0@
                        != (#[trigger] e[y]).0@ by {
                        let x0 = if x < i { x } else { x + 1 };
                        let y0 = if y < i { y } else { y + 1 };
                        assert(e[x] == before[x0] && e[y] == before[y0]);
                    }
                    assert forall|a: Seq<char>|
                        #[trigger] spec_lease_of(e, a) == if a == agent_id@ {
                            None
                        } else {
                            spec_lease_of(before, a)
                        } by {
                        if a == agent_id@ {
                            assert forall|k: int| !(0 <= k < e.len() && e[k].0@ == a) by {
                                if 0 <= k < e.len() {
                                    let k0 = if k < i { k } else { k + 1 };
                                    assert(e[k] == before[k0]);
                                    assert(before[k0].0@ != before[i as int].0@);
                                }
                            }
                        } else if exists|k: int| 0 <= k < before.len() && before[k].0@ == a {
                            let k = choose|k: int| 0 <= k < before.len() && before[k].0@ == a;
                            assert(k != i);
                            let k1 = if k < i { k } else { k - 1 };
                            assert(e[k1] == before[k]);
                            lemma_lease_at(e, k1);
                            lemma_lease_at(before, k);
                        } else {
                            assert forall|k: int| !(0 <= k < e.len() && e[k].0@ == a) by {
                                if 0 <= k < e.len() {
                                    let k0 = if k < i { k } else { k + 1 };
                                    assert(e[k] == before[k0]);
                                }
                            }
                        }
                    }
                }
                Some(lease)
            },
        }
    }
}

/// The path of a new worktree under a lead's worktree root: `<root>/<id>`.
pub fn new_worktree_path(root: &str, id: &str) -> (r: String)
    ensures
        r@ == spec_join(root@, id@),
{
    join(root, id)
}

} // verus!
