# Vox

Vox is a local voice bar for a developer who runs many Conductor worktrees in
parallel: it listens, asks a local model, carries out what the model decides, and
speaks the reply sentence by sentence while it is still being generated.

This repository holds its logic as a verified library, and the desktop shell around
it.

- `src/` is the library. Every function carries a contract, and Verus proves it. The
  exceptions are the wrappers around calls into `serde_json`, `regex`, `base64` and the
  standard library: their contracts are believed, and each says what it claims.
  - `text`, `sentences`, `paths`: texts, their sentences, and paths.
  - `json`, `pattern`: JSON values and regular expressions, with the calls into
    `serde_json` and `regex` behind stated contracts.
  - `settings`, `version`, `models`: settings, registry, pronunciations, updates.
  - `conductor`, `brief`: the state of the worktrees, and the recap on them.
  - `speech`, `state`: the speech session, interrupts, acknowledgements.
  - `prompt`, `chat`, `calls`, `reply`, `actions`, `turn`: the conversation with the
    model, from the instructions to what is said and done at the end of a turn.
  - `agents`, `daemons`, `setup`: processes that are started and watched.
- `tests/` runs the library on concrete values.
- `app/` does the input and output: windows, processes, files, network, audio.

The proof functions named `law_…` state what holds across functions.

The coding agent is named by `VOX_AGENT`; its command-line tool is the program of
that name in lower case. Without it no agent is launched.
