# majin

The verified core of majin, a real login shell on a pseudo terminal served
to a browser over WebSocket (or to a desktop window over local IPC).

- `src/` is the library, written in Verus: every function carries a
  contract and is proved against it. It holds the wire types, incremental
  UTF-8 decoding of PTY output, token sign-in with rate limiting and session
  tracking, cookie parsing and building, WebSocket admission, the decisions
  of a terminal connection and of the desktop window, asset routing and the
  start-up text. The `*_laws.rs` modules state what holds across calls.
- `app/` is the server program around it: command line, HTTP routes,
  WebSocket plumbing, the PTY process itself and the embedded web app.
- `tests/` exercises the library on concrete values.

Outside crates the library calls (SHA-256, constant-time comparison, the OS
random source, media-type guessing) sit behind small trusted wrappers whose
doc comments say what their contracts assume.
