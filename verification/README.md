# Browse

A minimal Radicle repository viewer: give it a `rad:z…` ID of a repository
in local storage and it shows the name, description, files (with the README
opened when there is one), commits, patches, issues and job COBs. Screens
come from a Gleam guest as packed opcodes; the host decodes and paints them.

## Layout

- `src/` — the `browse` library, verified with Verus:
  - `view_api`, `layout`, `gleam_bridge`, `gleam_guest`: opcode decoding, the
    paint plan (button rows, cards, the tab strip), the host view model, and
    the guest session (compiling and starting the module with wasmtime,
    calling its exports, reading guest strings out of linear memory);
  - `app_state`: the viewer as a state machine — what opening a RID, a
    finished load, a guest message or a paste changes, and which work the
    host must run next;
  - `components::browser`: tab, directory, selection and status-filter state
    of the repository browser, and the filtered patch/issue/job listings;
  - `rad`: the rules for rows built from Radicle storage (short ids, capped
    descriptions, list order, README choice, diff text);
  - `recent`, `tab_prefs`: the recently viewed list and the remembered tabs
    and filters per repository;
  - `markdown`, `linkify`, `keyboard`, `text`, `order`, `args`, `smoke`,
    `clipboard`, `desktop`: README rendering into display blocks, bare-URL
    detection, paste clean-up, string helpers, stable sorting, command-line
    arguments, the smoke-test dump, the pending clipboard read, and the
    desktop variant's opcode set.
- `tests/` — tests of the library on concrete values.
- `app/` — the program: the egui window (and the painter for the desktop
  variant's vocabulary-only screens), Radicle storage and git access,
  reading the guest module from disk, the clipboard and the JSON files on
  disk.

Proof functions named `lemma_*` state the library's laws: for instance that
recording a repository puts it first in the recent list exactly once, that
remembered tab preferences restore the browser state they were taken from,
that URL detection splits text into spans covering it exactly, and that the
list sort is stable and keeps every element.
