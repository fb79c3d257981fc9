# satz_studio

The view logic of satz studio, the desktop app for the satz estate compiler, written in
Verus: what each view shows, derived from satz's reports and the agent's events, with
its contract stated and proved.

- `src/` — the library. `chat` reduces the agent's events into the chat view's store,
  `replay` folds a saved transcript back into turns, `actions` decides what each of the
  operator's chat actions comes to, `interview` walks the open questions, `packs` hangs
  each pack below the one it needs, `overview` lists what an estate still owes,
  `commands` builds a satz command line from its fields, `resources` and `context` read
  the estate model; the smaller modules hold the words of the other views. Each module's
  public proof functions (`law_…`) state what holds across its functions.
- `tests/` — the library's tests, on concrete values.
- `app/` — the desktop side around it: the chat's loop over the engine, the file
  pickers, the clipboard, the conversions from the headless crate's types, and the
  longest views' rendering.
