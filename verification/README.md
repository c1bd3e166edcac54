# Rustodian

A personal project observatory: it walks development directories, detects
software projects (Rust, Python, Node.js, Go, Ruby, Zig), indexes their
commands, languages and Git state, triages them, cleans their build artifacts
and mirrors repositories from GitHub.

## Layout

- `src/` — the verified library (Verus). The tool's decisions live here with
  contracts: language and project-root detection, command discovery
  and resolution, scan selection, the bootstrap and janitor state machines,
  triage, archive-entry rules, path containment, report tables, log buffering
  and the stored forms of identifiers and instants. Public proof functions
  (`lemma_*`) state the laws that hold across calls.
- `tests/` — tests of the library on concrete values.
- `app/` — the command-line program: argument parsing, the SQLite store, the
  file-system walk, Git inspection, processes and HTTP. It hands the library
  plain values and acts on what the library decides. A few small choices of
  its own remain there: JSON output, the order of store calls, and skipping
  unreadable directory entries during a walk. `rustodian export-rag`
  exports the working tree as Markdown archives for retrieval.

The desktop interface is not part of this project: its decisions (reading
Markdown into blocks, finding a project's documents, checking or unchecking a
task) are in the library, but no graphical front end is built on them.

Calls into outside crates made by the library (UUIDs, JSON and TOML parsing,
glob matching, shell-word splitting, RFC 3339 time) sit behind small trusted
wrappers whose contracts are documented where they are declared.
