# glintindex_core

The core logic of GlintIndex, a desktop full-text search tool, written in
Verus. The functions under `src/` are verified against their contracts.
The few that only call into `syntect`, `notify` or std (file-name parts,
lowercasing, lossy decoding, syntax and theme lookup, notification fields)
are trusted wrappers: their contracts state what the called function is
documented to do, or give its result a name where only that can be said,
and their doc comments say what is left unstated.

- `preview`: encoding detection (UTF-8, UTF-8 with BOM, UTF-16 LE/BE
  with a byte order mark, binary), turning file bytes into preview content with large-file
  truncation, line splitting, syntax highlighting spans (with `syntect`),
  case-insensitive search-match highlighting, and the preview service with
  its one-entry cache.
- `scanner`: ignore rules, supported file types, the binary-content
  heuristic, scan statistics and the per-entry decisions of a scan
  (commit interval, size limit, change detection).
- `tasks`: background job bookkeeping: one job at a time, job ids,
  progress snapshots.
- `watcher`: filesystem events (from `notify`), the watch list and what each
  event asks of the index.
- `ui`: the search screen's state machine and the theme's style sheet.

Reading files, walking directories, receiving notifications and opening
files happen in `app/`, a small command-line program that hands plain values
to the library and acts on what it returns.
