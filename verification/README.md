# handy

The decisions of a dictation application, verified with Verus: when a key press starts, keeps or
ends a recording; whether a recording holds speech; where a long dictation can be cut; what a
cloud transcription service is sent and what its replies mean; what stays of past dictations and
what they add up to; how the overlay is sized, shown and hidden.

- `src/` is the library. Every function carries a contract that is proved. Calls into `serde_json`,
  `hound`, `base64` and two functions of the standard library stand behind small trusted wrappers,
  each with a comment on what is believed of it.
- `tests/` runs the library on concrete values, with the outside crates linked.
- `app/` is ordinary Rust around the library: audio levels, HTTP and WebSocket, SQLite, files,
  threads and windows.

Laws that relate several functions are public proof functions whose names begin with `law_`. They
stand beside what they speak of, or in `coordinator_laws.rs` and `history_laws.rs`.
