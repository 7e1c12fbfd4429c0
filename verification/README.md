# cia

A terminal browser for the chats of coding agents. It lists the chats that agents have kept, groups
them by project, shows which of them run in a tmux pane, and opens, archives and deletes them.

- `src/` is the library, written in Verus. It holds the rules of the program: how chats and panes
  are grouped and matched, how panes are marked and found again, what keys and clicks do, what each
  pane shows, how arguments are encoded and escaped, and how the configuration is expanded. Each
  function states what it returns, and `law_*` functions state what holds of several together.
- `app/` is the program around it: arguments, files, tmux, the Codex app-server and the terminal.
  It hands the library plain values, and does what the library asks for: see `Effect` in
  `src/app.rs`.
- `tests/` runs the library.

The identifier of the harness of `ClaudeConfig`, its default label and command, and the
command by which its panes are known, are read from `harness.toml` beside the configuration file. It
has four keys, all needed: `id`, `label`, `command` and `agent_command`. Without the file, that
harness is not offered.

Calls into other crates stand behind small functions whose contracts are believed, not proved. Each
says which function it calls: `shell_escape` in `src/shell.rs`, `serde_json` in `src/json.rs`,
`time` in `src/pi.rs` and `src/dates.rs`, `ratatui`'s layout in `src/layout.rs`, and a few functions
of the standard library in `src/text.rs` and `src/runner.rs`.
