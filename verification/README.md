# muxed

A tmux project manager. A project file (YAML) describes a session: its
windows, their panes, the commands they run and the directories they open in.
`muxed <project>` builds that session in tmux; `muxed snapshot` turns a running
session back into a project file.

## Layout

- `src/` is the verified library (Verus):
  - `tmux/`: the configuration model (session, window, pane, target, `pre`
    commands, tmux numbering options) and the forms a configuration may take.
  - `load/`: enrichment (names, targets, expanded paths), planning (the ordered
    tmux commands that build a session), the commands' arguments, the decision
    to attach to a running session, and the laws every plan keeps (`laws.rs`).
  - `snapshot/`: rebuilding a session from tmux's listings and the process
    table, and reading tmux's human-readable listings.
  - `new.rs`, `muxednew.rs`: filling project templates.
  - `list.rs`, `edit.rs`, `autocomplete.rs`, `project_paths.rs`, `paths.rs`,
    `args.rs`, `rand_names.rs`, `debug.rs`, `text.rs`: the smaller commands and
    the text and path helpers they share.
- `app/` is the `muxed` program: the command line, files, tmux, the process
  table, YAML and JSON.
- `tests/` runs the library on concrete inputs.
