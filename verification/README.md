# Test runner

Discovers test runnables in the active buffer, runs them through the editor's task
infrastructure, reads the runner's output into per-test results, and shows them in a dock panel.

- `src/` is the library, verified with Verus. `adapter` says what a language brings,
  `rust_adapter` brings it for Rust, `discovery` finds the tests among the runnables of a buffer,
  `resolve` turns the targets of a run into a command, `manager` and `run_task` follow runs from
  the request to the end of the process, and `test_panel` says what is shown. `state` holds the
  manager's transitions as mathematics; `laws` and `rust_laws` prove what holds over several of
  them.
- `app/` is the part that lives in the editor: entities, tasks, terminals and elements.
- `tests/` runs the library on concrete values.
