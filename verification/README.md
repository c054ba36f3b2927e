# clip_server

The request handling of a local server that a browser extension sends web clips and questions
to, and that a desktop app polls for them. It is written in Rust and verified with Verus.

- `src/` is the library. `http` tells what a request is for and answers it, `project` keeps the
  open and the known projects, `ask` and `answer` carry questions to the desktop app and answers
  back, `clip` decides step by step how a clip is written to its file, and `daemon` decides when
  the server binds its port again. `state` is what the requests share, `reply`, `text` and
  `lists` are what they are made of. `json` and `clock` are the border to `serde_json` and
  `chrono`. What holds of requests together is proved in `laws`, `clip_laws`, `reply` and
  `daemon`, and in `runs` what holds of whatever the server does, one thing after the other.
- `app/` listens on the port with `tiny_http`, reads and writes files, and waits.
- `tests/` runs the library.

Errors of a lock are part of the shared state: each store may have a fault, with which taking it
fails.
