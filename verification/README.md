# wire-whisper

A single-room chat: an asynchronous server, a command-line client, and the
length-delimited binary protocol between them.

- `src/` is the logic, verified with Verus: the protocol (validated text, frame
  payloads, framing), the hub that routes frames between sessions, what a
  session and the accept loop decide, and what the client does about commands
  and frames. Each function's contract says exactly what it returns; the
  properties that span functions are the proof functions named `law_*`.
- `app/` waits for sockets, timers, signals and the terminal, hands events to
  the library and carries out the actions that it gets back. The rate limiter
  lives here too; the session asks for its word with an action.
- `tests/` runs the library together with the crates it builds on: `bytes`,
  `postcard`, `papaya` and tokio's channels.

Calls into those crates go through a few trusted declarations in
`src/buffer.rs`, `src/payload.rs`, `src/mailbox.rs`, `src/hub.rs`,
`src/text.rs` and `src/validated.rs`. Each says above its contract what it
claims of the function that it calls.

The hub is a plain value with `&mut self` methods; the server shares it between
tasks behind a mutex that is never held across an `await`.
