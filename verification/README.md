# handy_server

The decisions behind Handy's local transcription API, verified with Verus:
which address may be bound, who may call, what an upload holds, and how a live
stream goes from its upgrade to its final transcript.

## Layout

- `src/` is the library. It takes plain values and gives plain values back.
  - `config`, `handle`, `commands`: the binding rules, the state of the server,
    and what the settings page does with it.
  - `auth`, `routes`, `error`: tokens, endpoints, and refusals.
  - `audio`, `transcription`: WAV files, the upload form, the job of a batch
    transcription, and its answer.
  - `stream`, `message`, `session`, `session_laws`: the request for a stream,
    what is said over it, the session as a state machine, and what holds of
    every session.
  - `base64`, `text`: encodings.
  - `host`: what the library asks of the program around it.
- `app/` is the server around the library: sockets, tasks, and everything in
  floating point (scaling, mixing down, resampling).
- `tests/` runs the library on concrete values.

## What is taken on trust

Contracts of functions outside this crate stand above small wrappers: hound's
WAV reader in `audio`, serde_json's parser and string quoting in `text`, and
`str::trim` and `std::str::from_utf8` in `text`. Everything else is proved.
