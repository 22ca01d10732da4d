# helm-herdr

Helm is a navigator for the Herdr terminal workspace manager: one Picker that lists open
Workspaces, Tabs and Panes, agents, project and zoxide directories, roots and remote
sessions, and focuses, creates, hands off or runs whatever the User picks.

## Layout

- `src/` is the library, written and proved with Verus. It holds the Picker's state and
  everything it decides: Query parsing and ranking, the Topology cursor and its
  navigation, keyboard and mouse handling, reading Herdr's JSON replies into Entries and
  a Topology, git worktree identities, row layout and Topology block rendering, the
  recent-workspace history, marks, Jump Back, and the plans for opening and closing.
- `app/` is the `helm-herdr` program around it: command-line dispatch, the Herdr CLI
  and socket, files on disk, zoxide and git processes, and the terminal interface.
- `tests/` exercises the library on concrete values.

The library calls into `ratatui` (display widths), `toml` (Herdr's own settings) and
`std` paths only through small trusted wrappers, each documented where it is declared.
