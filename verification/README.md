# codex_logic

The decision logic of Codex's lifecycle hooks, multi-agent team tools, thread listing,
provider selection, permission requests and exec wrapper, written in Verus with its
contracts proved.

- `src/` is the verified library. `hooks/` holds hook configuration, the registry that
  decides which hooks run for an event, the reading of hook output and the steps of prompt
  and agent hooks; `teams`, `tasks`, `inbox` and `collab` hold the team tools; `turns`
  holds thread and turn paging; `provider`, `permissions`, `apply_patch`, `runtime`,
  `worktree`, `exec_wrapper`, `marketplace`, `prompts` and `paths` the rest.
- `tests/` exercises the library from outside.
- `app/` is the I/O around it: reading configuration files, running hook commands, the team
  store on disk, the process table, the command line and the exec wrapper's socket.
