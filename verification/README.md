# hunt_bot

The decisions of a hunting bot for a Windows game client, as a verified library.

* `src/client` – what is read from and written to the client: keys and mouse
  messages, the packet mirror and its rings, what packets report and what that
  tells about targets, the spell book, the weapon.
* `src/action` – what is done in the game: walking, clicking, attacking, casting.
* `src/decide` – the hunt's settings, and the search for walks over a grid.
* `src/hunt4` – the hunt: perception, memory, candidates and their ranking,
  exploration, the plan, the state machine of a tick (`step`), the choice between
  its intent and the plan's, and the bookkeeping around them (`backend`,
  `runtime`).
* `src/engine.rs`, `src/hotkey.rs`, `src/config.rs` – the outer loop, the keys,
  the stored settings.
* `app` – what touches the machine: windows, the client's memory, files, threads.
  It asks the library what to do and reports back how it went.

Time is counted by the library's own `Instant` and `Duration`; whoever calls says
what time it is. Public proof functions named `law_…` state what holds across
several functions.
