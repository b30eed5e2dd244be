//! The apply-patch runtime: how Codex runs itself to apply an approved patch, and when it asks
//! for approval. Paths are held as text.
use crate::permissions::{FileSystemPermissions, PermissionProfile};
use crate::text::owned;
use vstd::prelude::*;

verus! {

/// The first argument with which Codex runs itself to apply a patch.
pub const CODEX_CORE_APPLY_PATCH_ARG1: &'static str = "--codex-run-as-apply-patch";

/// Options of a policy that rejects some approval requests outright.
#[derive(Debug, Clone, Copy, PartialEq, Eq, Structural)]
pub struct RejectConfig {
    pub sandbox_approval: bool,
    pub rules: bool,
    pub mcp_elicitations: bool,
}

/// When the user is asked to approve commands.
#[derive(Debug, Clone, Copy, PartialEq, Eq, Structural)]
pub enum ApprovalPolicy {
    UnlessTrusted,
    OnFailure,
    OnRequest,
    Granular,
    Reject(RejectConfig),
    Never,
}

/// How a patch is decided on.
#[derive(Debug, Clone, Copy, PartialEq, Eq, Structural)]
pub enum ReviewDecision {
    Approved,
    ApprovedForSession,
    Denied,
    Abort,
}

/// Runs patches that were approved.
#[derive(Debug, Default)]
pub struct ApplyPatchRuntime {}

/// How the sandbox is used for a command.
#[derive(Debug, Clone, Copy, PartialEq, Eq, Structural)]
pub enum SandboxPermissions {
    UseDefault,
    WithAdditionalPermissions,
}

/// The command that applies a patch.
#[derive(Debug)]
pub struct PatchCommand {
    pub program: String,
    pub args: Vec<String>,
    pub cwd: String,
    pub timeout_ms: Option<u64>,
    /// The environment: each temporary directory variable points into the working directory.
    pub env: Vec<(String, String)>,
    pub sandbox_permissions: SandboxPermissions,
    pub additional_permissions: Option<PermissionProfile>,
}

/// How a patch approval is obtained.
#[derive(Debug, Clone, Copy, PartialEq, Eq, Structural)]
pub enum ApprovalRoute {
    /// Granted permissions already cover the patch's files.
    Approved,
    /// A retry: the user is asked again, with the retry's reason.
    AskWithReason,
    /// The user is asked, unless an approval for these files is remembered.
    AskOrRemembered,
}

impl ApplyPatchRuntime {
    /// A runtime.
    pub fn new() -> (r: ApplyPatchRuntime) {
        ApplyPatchRuntime {  }
    }

    /// Whether running outside the sandbox wants the user's approval under a policy: never
    /// under `Never`, and under `Reject` only when it does not reject sandbox approvals.
    pub fn wants_no_sandbox_approval(&self, policy: ApprovalPolicy) -> (r: bool)
        ensures
            r == match policy {
                ApprovalPolicy::Never => false,
                ApprovalPolicy::Reject(c) => !c.sandbox_approval,
                _ => true,
            },
    {
        match policy {
            ApprovalPolicy::Never => false,
            ApprovalPolicy::Reject(c) => !c.sandbox_approval,
            ApprovalPolicy::OnFailure => true,
            ApprovalPolicy::OnRequest => true,
            ApprovalPolicy::Granular => true,
            ApprovalPolicy::UnlessTrusted => true,
        }
    }

    /// How the approval of a patch is obtained: a retry always asks with its reason; otherwise
    /// permissions already granted for the files approve it; otherwise the user is asked
    /// unless an approval is remembered.
    pub fn approval_route(&self, is_retry: bool, preapproved: bool) -> (r: ApprovalRoute)
        ensures
            r == if is_retry {
                ApprovalRoute::AskWithReason
            } else if preapproved {
                ApprovalRoute::Approved
            } else {
                ApprovalRoute::AskOrRemembered
            },
    {
        if is_retry {
            ApprovalRoute::AskWithReason
        } else if preapproved {
            ApprovalRoute::Approved
        } else {
            ApprovalRoute::AskOrRemembered
        }
    }

    /// Whether a decision makes the patch's files writable for the rest of the session.
    pub fn remembers_write_roots(&self, decision: ReviewDecision) -> (r: bool)
        ensures
            r == (decision == ReviewDecision::ApprovedForSession),
    {
        decision == ReviewDecision::ApprovedForSession
    }

    /// The permissions a preapproved patch runs with: reading and writing exactly its files.
    pub fn scoped_permissions(&self, file_paths: &Vec<String>) -> (r: PermissionProfile)
        ensures
            r.network is None,
            r.macos is None,
            r.file_system matches Some(fs) && fs.read matches Some(rd) && fs.write matches Some(wr)
                && crate::hooks::registry::strings_view(rd@) == crate::hooks::registry::strings_view(
                file_paths@,
            ) && crate::hooks::registry::strings_view(wr@) == crate::hooks::registry::strings_view(
                file_paths@,
            ),
    {
        let read = crate::hooks::registry::clone_strings(file_paths);
        let write = crate::hooks::registry::clone_strings(file_paths);
        PermissionProfile {
            network: None,
            file_system: Some(FileSystemPermissions { read: Some(read), write: Some(write) }),
            macos: None,
        }
    }

    /// The command that applies a patch: Codex itself, run with the apply-patch argument and
    /// the patch, in the patch's directory, with every temporary directory variable pointing
    /// there, and with the extra permissions when there are some.
    pub fn build_command_spec(
        &self,
        program: String,
        patch: &str,
        cwd: &str,
        timeout_ms: Option<u64>,
        additional_permissions: Option<PermissionProfile>,
    ) -> (r: PatchCommand)
        ensures
            r.program == program,
            r.args@.len() == 2 && r.args@[0]@ == CODEX_CORE_APPLY_PATCH_ARG1@ && r.args@[1]@
                == patch@,
            r.cwd@ == cwd@,
            r.timeout_ms == timeout_ms,
            r.env@.len() == 3 && r.env@[0].0@ == "TMPDIR"@ && r.env@[1].0@ == "TMP"@
                && r.env@[2].0@ == "TEMP"@ && forall|i: int| 0 <= i < 3 ==> (#[trigger] r.env@[i]).1@
                == cwd@,
            r.sandbox_permissions == if additional_permissions is Some {
                SandboxPermissions::WithAdditionalPermissions
            } else {
                SandboxPermissions::UseDefault
            },
            r.additional_permissions == additional_permissions,
    {
        let mut args: Vec<String> = Vec::new();
        args.push(owned(CODEX_CORE_APPLY_PATCH_ARG1));
        args.push(owned(patch));
        let mut env: Vec<(String, String)> = Vec::new();
        env.push((owned("TMPDIR"), owned(cwd)));
        env.push((owned("TMP"), owned(cwd)));
        env.push((owned("TEMP"), owned(cwd)));
        let sandbox_permissions = if additional_permissions.is_some() {
            SandboxPermissions::WithAdditionalPermissions
        } else {
            SandboxPermissions::UseDefault
        };
        PatchCommand {
            program,
            args,
            cwd: owned(cwd),
            timeout_ms,
            env,
            sandbox_permissions,
            additional_permissions,
        }
    }
}

} // verus!
