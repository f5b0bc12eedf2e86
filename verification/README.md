# localcoder

The logic of a local coding assistant, verified with Verus: conversations with
a model, the tools it may call, the interactive prompt, and the local server.

- `src/` is the library. Whatever it decides or computes is stated in
  contracts over mathematical models and proved. Work that has to be done
  outside, such as asking the model or storing a session, is asked for step by
  step: a flow takes what came of the last step and says what is to be done
  next (`engine`, `server_flow`, `repl_turn`, `commit`).
- `tests/` runs the library.
- `app/` is the program around it: files, the terminal, HTTP.

What the library has from other crates stands behind a few functions whose
contracts are believed: `serde_json` in `json` and `types`, `oxink` in
`prompt_input`, `screen` and `terminal_style`, `termimad` in `layout` and
`markdown`.
