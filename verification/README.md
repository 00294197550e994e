# rpg_raid_shop

The rules of a small multiplayer action RPG (a Bevy game client, a SpacetimeDB
server module, and a developer task runner), written as a Verus library whose
functions carry `requires`/`ensures` contracts proved by Verus.

## Layout

- `src/` — the verified library.
  - `display_name.rs` — player ids and validated display names: trimming,
    `[A-Za-z0-9_-]` filtering, the 24-character cap; the laws that say when a
    name is accepted and that normalizing is idempotent.
  - `faction.rs` — the hostility rule (symmetric, irreflexive).
  - `dodge.rs` — the dash and cooldown timers of a dodge (Bevy one-shot
    timers held as plain values), and when a requested dodge starts.
  - `animation.rs` — sprite-sheet clips and playback driven by a repeating
    Bevy `Timer` held as plain values; laws: frames stay within the clip, a
    tick reports a frame exactly when it changed, repeating animations loop,
    a finished one-shot stays finished.
  - `client_sync.rs` — matching drawn squares to the server snapshot, palette
    slots, the local player's square, the camera's follow target.
  - `guests.rs` — guest name sanitizing (Unicode alphanumerics, `_`, `-`), default guest names, registration.
  - `dev_tasks.rs` — command-line plans of the task runner, the rule that
    the first failing step ends a run, database URI and
    pid-file parsing, and the wait for a database started in the background.
  - `numbers.rs`, `text.rs`, `time_span.rs` — unsigned decimal parsing,
    string helpers, and spans of time as seconds and nanoseconds.
- `tests/` — tests on concrete values for the library.
- `app/` — the executables' glue: Bevy systems and plugins, the SpacetimeDB
  table and reducers, the task runner's process and file handling, and the
  floating-point movement math.
