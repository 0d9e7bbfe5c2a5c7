# run-cli

A command-line tool that registers and runs tools: a config registry
(`config.toml`, name → absolute path) consulted first, and a toolbox
directory of hand-placed tools as the fallback.

## Layout

- `src/` — the verified library (Verus). Every decision the program makes is
  here, with its contract:
  - `paths.rs` — lexical path handling on strings (components, file names,
    extensions, joining, containment), for Unix and Windows rules.
  - `config.rs` — the registry: lookup with extension completion, upsert,
    remove, sorted names, name validation, config file location; laws such
    as "a lookup after an upsert finds the tool" and "removing undoes adding".
  - `toolbox.rs` — the toolbox directory: candidate paths for a name, lookup
    with the path boundary (a resolved path never lies outside the toolbox),
    listing, and the add/remove decisions.
  - `suggest.rs` — spelling suggestions (Levenshtein distance at most 2, from
    `strsim`).
  - `runner.rs` — how a tool is launched and how its status becomes the exit
    code; `--env` parsing.
  - `cli.rs` — the argument splitter that gives `run` its verbatim
    passthrough.
  - `messages.rs` — every user-facing text.
  - `commands/` — the subcommands' decisions and the shared error type.
- `app/` — the program around the library: argument parsing (clap), reading
  the filesystem, the config file format (toml), JSON output (serde_json),
  spawning processes and shell completions (clap_complete).
- `tests/` — tests of the library.

The filesystem is never read by the library: the program reads what a
decision needs (whether a candidate is a file, its canonical form, a
directory listing, ...) and hands it over as plain values.
