# servatui

A core for programs with a server behind a socket and a client in the terminal,
written in Verus: what the functions do is stated in their contracts and proved.

- `protocol`, `server`, `connection`, `json`: commands as conversations. Client
  and server walk through the same steps, frames are lines of JSON, and a failure
  of the server reaches the client as a frame of its own.
- `shell`, `input`, `console`: the input line with its history and completion, and
  what a key does to it.
- `wrap`, `selection`, `tui`, `screen`, `mouse`: the log, wrapped into rows, its
  selection by mouse, and the plan of a frame.
- `display`: a stack of layers with a taskbar, which share the screen and the
  events.
- `terminal`: the size of the terminal, the clipboard, and the sequences that leave
  the terminal as it was.
- `fixtures`: sample commands and sample sessions with what has to come of them.
- `text`, `event`, `geometry`: characters, events and areas.

Properties that relate several functions are proof functions whose names begin with
`law_`. Calls into other crates and into parts of the standard library stand behind
functions marked `external_body` or `assume_specification` items, and each says what
is taken on trust.

`app/` is ordinary Rust around the library: sockets, the terminal itself, signals,
and steps written as closures. `tests/` runs the library.
