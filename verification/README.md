# mnemo

Mnemo is a local-first clipboard memory: it captures what you copy, groups
copies into research sessions, finds them again by keyword or meaning, links
related clips into a graph, and answers questions from the clips alone.

This crate is Mnemo's logic, written in Verus and verified: every public
function states what it returns in its contract, and the laws the
application relies on are proved as proof functions beside the code.  The
one exception is the capture switch (`capture_state::is_enabled` and
`set_enabled`): it is an atomic flag shared with other threads, whose value
a contract cannot state.

- `src/` — the verified library.
  - `text`, `split`, `order`, `json`: strings as character sequences, line
    and piece splitting, the string order, and a plain model of JSON.
  - `services/`: capture gating and session steps (`watcher`), source kinds,
    de-duplication fingerprints, filter rules, session labels, the memory
    graph's limits, retention, the context endpoint's checks, model files and
    redirects, active-window parsers, and the grounded-answer pipeline
    (`ai`: prompt, provider requests, answer checks).
  - `commands/`: the decisions behind the shell's commands — search query
    preparation and reranking order, session rows and source breakdowns,
    provider settings and answer plans, preference checks, paging.
- `tests/` — tests of the library on concrete values.
- `app/` — the Tauri shell around the library: SQLite, the clipboard loop,
  the embedding worker, HTTP, and the floating-point scoring.

Outside crates that the library calls (`serde_json`, `regex`, `blake3`, and a
few std string functions) sit behind small trusted wrappers whose contracts
name or state their results.
