# nrc

A terminal viewer for nix-result-checks reports, with its logic verified
in Verus.

- `src/` is the library, every function verified against its contract:
  - `app` — the report: entries by key, listing order, suites, nested
    children, fold state, generations and pruning, visible rows, counts.
  - `table` — the string-keyed table and key set the report is kept in.
  - `keymap`, `config` — key combinations, presets, bindings, and how
    the keymap in effect is chosen; where configuration files are looked
    for.
  - `list_view`, `detail_view`, `ui` — navigation, folding, the detail
    panel's scrolling, panes, overlays, command dispatch, and what each
    event from a rebuild does to the window.
  - `runner`, `source` — the Nix invocations behind each source, how their
    output is read, and the choice of source from the command line.
  - `stream` — streaming mode: which entries go out after each rebuild.
  - `screen`, `wrap`, `text` — the texts and popup geometry drawn.
  - `errorlog` — where full error messages are logged.
  - `laws`, `upsert_laws`, `consistency` — properties that span
    operations, proved; among them that the report holds together.
- `app/` is the program around it: argument parsing, threads, processes,
  file watching, terminal input, drawing, and the JSON forms of the
  library's types.
- `tests/` runs the library on concrete values.
