//! The exec wrapper that zsh runs in place of a command: it asks Codex whether to run the
//! command, and runs it only when allowed. This module holds the wrapper's decisions.
use crate::text::{chars_of, owned, push_str, str_eq, string_of};
use vstd::prelude::*;

verus! {

/// The environment variable that holds the socket the wrapper asks on.
pub const ZSH_EXEC_BRIDGE_WRAPPER_SOCKET_ENV_VAR: &'static str = "CODEX_ZSH_EXEC_BRIDGE_WRAPPER_SOCKET";

/// The environment variable whose presence runs Codex as the exec wrapper.
pub const ZSH_EXEC_WRAPPER_MODE_ENV_VAR: &'static str = "CODEX_ZSH_EXEC_WRAPPER_MODE";

/// The environment variable through which zsh finds the wrapper.
pub const EXEC_WRAPPER_ENV_VAR: &'static str = "EXEC_WRAPPER";

/// What Codex answers the wrapper.
#[derive(Debug, Clone, Copy, PartialEq, Eq, Structural)]
pub enum WrapperExecAction {
    Run,
    Deny,
}

/// The command the wrapper was asked to run: the executable (the first argument after the
/// wrapper's own name) and its argument vector (the arguments after it, or the executable
/// alone when there are none). Without an executable the wrapper refuses to start.
pub fn wrapper_target(args: &Vec<String>) -> (r: Result<(String, Vec<String>), String>)
    ensures
        args@.len() < 2 ==> (r matches Err(e) && e@ == "exec wrapper mode requires target executable path"@),
        args@.len() >= 2 ==> (r matches Ok((file, argv)) && file@ == args@[1]@ && if args@.len()
            > 2 {
            argv@.len() == args@.len() - 2 && forall|i: int|
                0 <= i < argv@.len() ==> (#[trigger] argv@[i])@ == args@[i + 2]@
        } else {
            argv@.len() == 1 && argv@[0]@ == args@[1]@
        }),
{
    if args.len() < 2 {
        return Err(owned("exec wrapper mode requires target executable path"));
    }
    let file = args[1].clone();
    let mut argv: Vec<String> = Vec::new();
    if args.len() > 2 {
        let mut i: usize = 2;
        while i < args.len()
            invariant
                2 <= i <= args@.len(),
                argv@.len() == i - 2,
                forall|k: int| 0 <= k < argv@.len() ==> (#[trigger] argv@[k])@ == args@[k + 2]@,
            decreases args@.len() - i,
        {
            argv.push(args[i].clone());
            i = i + 1;
        }
    } else {
        argv.push(file.clone());
    }
    Ok((file, argv))
}

/// Checks Codex's answer: an answer to another request is an error; otherwise whether the
/// command may run.
pub fn check_wrapper_response(
    request_id: &str,
    response_request_id: &str,
    action: WrapperExecAction,
) -> (r: Result<bool, String>)
    ensures
        request_id@ != response_request_id@ ==> (r matches Err(e) && e@
            == "wrapper response request_id mismatch: expected "@ + request_id@ + ", got "@
            + response_request_id@),
        request_id@ == response_request_id@ ==> r == Ok::<bool, String>(action == WrapperExecAction::Run),
{
    if !str_eq(response_request_id, request_id) {
        let mut m = chars_of("wrapper response request_id mismatch: expected ");
        push_str(&mut m, request_id);
        push_str(&mut m, ", got ");
        push_str(&mut m, response_request_id);
        return Err(string_of(m.as_slice()));
    }
    Ok(action == WrapperExecAction::Run)
}

/// The arguments the wrapped executable is run with: its argument vector without its name.
pub fn wrapped_args(argv: &Vec<String>) -> (r: Vec<String>)
    ensures
        argv@.len() <= 1 ==> r@.len() == 0,
        argv@.len() > 1 ==> r@.len() == argv@.len() - 1 && forall|i: int|
            0 <= i < r@.len() ==> (#[trigger] r@[i])@ == argv@[i + 1]@,
{
    let mut out: Vec<String> = Vec::new();
    if argv.len() > 1 {
        let mut i: usize = 1;
        while i < argv.len()
            invariant
                1 <= i <= argv@.len(),
                out@.len() == i - 1,
                forall|k: int| 0 <= k < out@.len() ==> (#[trigger] out@[k])@ == argv@[k + 1]@,
            decreases argv@.len() - i,
        {
            out.push(argv[i].clone());
            i = i + 1;
        }
    }
    out
}

/// The exit code of the wrapper after running the command: the command's, or 1 when it has
/// none (it was killed by a signal).
pub fn wrapper_exit_code(code: Option<i32>) -> (r: i32)
    ensures
        r == match code {
            Some(c) => c,
            None => 1,
        },
{
    match code {
        Some(c) => c,
        None => 1,
    }
}

} // verus!
