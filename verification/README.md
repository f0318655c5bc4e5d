# argus_tui

The decision logic of argus, a terminal UI that runs several coding-agent
sessions side by side in workspaces, verified with Verus.

- `src/` is the library: key and mouse handling as functions from the app
  model and an input to the next model and the effects to run, the toast
  engine, wheel and paste coalescing, terminal key and mouse encodings, the
  OSC 52 clipboard scan, the fuzzy finder and its preview, the Explorer tree,
  the Git tab, layout, translations and the view decisions. `src/laws.rs`
  holds the properties that span several calls.
- `tests/` runs the library on concrete inputs.
- `app/` is the program around it: terminal setup, the event loop, the
  backend runtime that spawns sessions and background tasks, and drawing.
