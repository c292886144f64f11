# jao

`jao` discovers the scripts of a workspace (`.sh` on Unix-like systems, `.bat`
on Windows), lists them, fingerprints them and runs them from their own folder.
A script `deploy.api.prod.sh` is run with `jao deploy api prod`.

- `src/` is the library, verified with Verus: shell completion, script names,
  fingerprints and the checks made before a script runs, the help screen and
  the error messages.
- `app/main.rs` is the command: argument parsing with clap, walking the
  working directory, reading files, printing and starting processes.
- `tests/` runs the library on concrete values.
