# Kickoutchi

The verified core of a port janitor: a tool that shows which process holds a port, ends
that process when asked to, and watches endpoints come and go.

`src/` is the library, written in Verus. Each function states what it does in `requires`
and `ensures`, and Verus proves it. What the tool promises as a whole stands as public
proof functions whose names start with `law_`.

- `text`, `lossy`, `time`, `address`, `model`, `evidence`, `order`, `bags`: values and
  orders that the rest is stated over.
- `observation`, `native`, `canonical`, `passes`, `merge`, `metadata`, `resolve`,
  `snapshot`, `collection`: one consistent snapshot out of repeated raw passes.
- `ports`, `process`, `protection`, `config`, `query`, `projection`: table rows, kill
  targets and the user's policy.
- `operations`: what a kill asks of its surroundings, and the record of what it asked.
- `kill`, `answer`, `prompts`, `banner`, `tree`, `scoped`, `scoped_group`,
  `windows_report`, `windows_tree`, `scope_laws`: ending one process, a process tree or a
  process group.
- `watch_*`, `sink`, `signal`, `collector`, `exit`: the watch run and its output.
- `input`, `app_*`: the terminal interface as a state machine.

`tests/` runs the library. `app/` is ordinary Rust around it: the command line, the
terminal, clocks, threads and JSON.
