# fwd-deck

`fwd-deck` manages SSH local port forwards that are declared in TOML
configuration files: it lists, shows, starts, stops, recovers and watches
them, checks the configuration, and edits it.

## Layout

- `src/` is the library, written in Verus. Every decision the commands take
  is a function there with a contract that Verus proves: how the global,
  local and override files merge, validation, tag and name selection, the
  `ssh` arguments, the state file of running tunnels, what `start`, `stop`,
  `recover` and `watch` decide, the configuration edits, the import of
  `ssh -L` commands, the tables and messages, and the doctor report.
  Properties that span several functions stand there as proof functions
  (their names begin with `lemma_`).
- `app/` is the `fwd-deck` command: argument parsing, reading and writing
  files, running `ssh` and `lsof`, signalling processes, prompts and printing. It hands
  the library plain values and prints what the library returns.
- `tests/` runs the library on concrete values.

Calls into `shlex`, `uuid` and `unicode-width` are made from `src/` through
small trusted wrappers whose contracts say what those crates do.
