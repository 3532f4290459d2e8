# vestige-sync

A wrapper around `vestige-mcp` that keeps the memory stores of several
machines in step through a shared sync directory (Syncthing or any file-sync
tool): it relays MCP stdio to the child process, periodically exports the
local store to `<sync-dir>/<filename>.<ext>` (the extension of the chosen
`--format`), and imports the export files of the other machines, in any
supported format, when they change.

Layout:

- `src/` — the verified library (Verus):
  - `text.rs`   character-level helpers on strings;
  - `path.rs`   Unix path text as `std::path::Path` reads it (file name,
    parent, join, components and their order), with lemmas;
  - `order.rs`  lexicographic orders and their laws;
  - `cli.rs`    export formats, export and temporary paths, `~` expansion,
    the command-line settings;
  - `template.rs` filename templates (`{hostname}`, `{os}`, `{platform}`,
    `{distro}`, `{user}`);
  - `export.rs` the export cycle as a state machine, and the export loop's
    decision;
  - `import.rs` which files are imported: directory listings, polling by
    modification time, batches of change notifications;
  - `proxy.rs`  the child's arguments and the exit code passed on.
- `app/` — the program: command-line parsing, the async loops, file and
  process I/O, signals.
- `tests/` — tests of the library.
