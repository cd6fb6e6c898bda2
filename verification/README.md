# ohos_rs

Verified core of the OpenHarmony N-API tooling, written in Verus.

- `src/` — the verified library:
  - `soname`, `project`, `package`, `version`, `digest`, `plan`, `error`:
    the decisions taken while preparing a build (SONAME normalisation,
    which packages to build, the version check of the N-API crates, the
    type-definition folder name, the cargo sub-command, where the output goes,
    which bindings are regenerated) and the messages of its errors;
  - `task`: the `Task` / `ScopedTask` traits and the `AsyncTask` handle;
  - `abort`: the state shared by tasks and their abort signals, and what an
    abort does to it;
  - `text`: character-level helpers.
- `app/` — the preparation step itself: it reads Cargo's metadata, the file
  system and the environment, and hands the decisions to the library.
- `tests/` — tests of the library on concrete values.
