# multiplexer

Headless logic of the Multiplexer desktop shell and its in-app terminal,
written in Verus: every function in `src/` carries a contract that Verus
proves, and the laws the shell relies on are stated and proved as proof
functions (`law_*`).

Layout:

- `src/` — the verified library.
  - Terminal side: `frame` (PTY output grid), `frame_laws`, `terminal`,
    `keys`, `hub`.
  - Shell side: `workspace` (threads, composer, inspector state),
    `workspace_laws`, `actions`, `keymap`, `keymap_laws`, `bindings`,
    `palette`, `search`, `inspector_model`, `overlay`, `notices`, `composer`,
    `diff_view`, `persist`, `settings`, `grok_history`, and the smaller view
    models.
  - `json` — the JSON documents the persistence formats read and write,
    seen through `serde_json::Value` as a map from JSON pointers to nodes.
  - `text` — sequences of chars: trimming, splitting, joining, numerals.
- `tests/` — tests run against the compiled library.
- `app/` — desktop-side glue: files and the environment, child processes,
  pseudo-terminal sessions, and the floating-point geometry and theme tables.
