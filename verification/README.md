# bashlings

Learn bash by solving small puzzles in disposable Podman containers.

The runner's decisions live in a library whose behaviour is stated in contracts and
proved with Verus (`src/`); the program around it (`app/`) reads files, talks to
Podman and the terminal, and hands the library plain values.

- `src/container.rs` — the `podman run` invocation: every argument, in order, and the
  hardening that every container gets.
- `src/progress.rs` — progress per puzzle: attempts, solves, the first solve time.
- `src/puzzle.rs`, `src/order.rs` — puzzle metadata, paths, the module an id names,
  ordering by id.
- `src/commands/` — what each command decides: the listing and its locks, the next
  puzzle, hints, the session and self-test steps.
- `src/ui.rs`, `src/style.rs`, `src/text.rs` — answers to prompts, trimming, colors.
- `src/clock.rs`, `src/workspace.rs` — the clock and run ids.
