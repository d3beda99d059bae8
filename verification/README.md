# taskcli

A command-line client for the Todoist task service (`todo auth`, `list`,
`add`, `check`, `uncheck`, `delete`), written as a Verus library with a thin
program around it.

- `src/` is the verified library:
  - `text.rs`: trimming, line splitting, joining, padding and decimal
    writing, each proved against a specification of the std operation it
    stands for, and the law that stored lines read back unchanged;
  - `filter.rs`: the filter query built from the `list` components;
  - `due.rs`: due dates (parsed, converted and formatted by chrono behind
    trusted wrappers) and their display relative to today;
  - `tasks.rs`: the listing entries, their stable ordering by due date, and
    the report of an added task;
  - `api.rs`: request addresses (built with reqwest's `Url`), the
    `Authorization` value, task index resolution and response checks;
  - `sync.rs`: the keychain token and the stored task list format.
- `app/` holds `main`, argument parsing (clap), HTTP requests (reqwest),
  JSON access (serde_json), the OS keychain (keyring), directories and
  files, and colours (colored).
- `tests/` runs the library with the real outside crates.
