# kandume

A terminal multiplexer that organizes work into projects, windows and
panes, with a tmux-style `Ctrl-b` prefix. Each pane runs a shell on a PTY.

The crate is split in two:

- `src/` is the library, verified with Verus: the pane split tree
  (`pane_tree`), screen geometry and hit testing (`layout`), the key and
  mouse encoders (`input`, `mouse`), the session file model and its
  migrations (`session`), the pane model (`terminal`), small text
  operations (`text`), and the state machine of the whole workspace
  (`app`). Every public function states its result in its `ensures`, and
  the laws that relate functions (closing what a split opened, saving and
  restoring, hit testing against terminal areas, the prefix layer) are
  proof functions named `law_*`.
- `app/` is the program around it: the terminal, the event loop, the PTYs
  and their screen emulators, the session file on disk, and drawing. It
  hands the library plain values and carries out the commands it returns.

`tests/` runs the library on concrete values.

## Keys

Press `Ctrl-b`, then:

| Key | Action |
|-----|--------|
| `Ctrl-b` | send a literal `^B` to the shell |
| `t` | new project in the home directory |
| `c` | new window in the current project |
| `%` / `"` | split the active pane vertically / horizontally |
| `n` / `p` | next / previous project |
| `1`–`9` | select a project by number |
| `]` / `[` | next / previous window |
| `o` / `;` | next / previous pane |
| `x` | close the active pane |
| `,` / `.` / `r` | rename the project / window / pane |
| `D` | delete the project (asks first; `y` or Enter confirms), then save the session |
| `e` | edit the pane's shell command; Enter restarts the pane with it |
| `d` | save the session and quit |
| `q` | quit without saving |
| `?` | toggle help |

The session is saved as TOML in `kandume/session.toml` under the
platform's configuration directory.
