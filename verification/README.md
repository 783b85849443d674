# Donna Desktop

Donna Desktop keeps a session with Donna's cloud on this Mac and runs the worker
that agents work in. This crate holds its rules, verified with Verus, and the app
around them.

- `src/` is the library. Its contracts are proved, except for a few functions that
  call other crates or the standard library; each of those says what it takes on
  trust.
  - `flow` - sessions and the worker, step by step; `laws` - what holds of every flow
  - `state` - what the app knows; `refresh` - new access tokens; `login`, `link` -
    signing in
  - `worker`, `message`, `json` - starting the worker and talking to it
  - `workspace`, `paths`, `identity`, `menu`, `text` - the rest
- `app/` performs what the library asks for: the keychain, the token service, the
  worker's process and its socket, files, the window and the menu.
- `tests/` runs the library.

A flow starts with a function such as `AppState::set_session`, which gives the flow
and the first effect. The app performs the effect and hands the outcome to
`AppState::resume`, until the effect is `Finish`.
