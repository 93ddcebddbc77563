# cordial-runtime

The decisions inside Cordial's runtime, stated as contracts and proved with
Verus: what a join link is and what it may print, what a BloxstrapRPC line
asks of the game's presence, what the engine's log says about joining and
leaving, where the client settings come from and how flag overrides are
merged, how the loader reads its command line, the development control
protocol, and the keyboard, input-method, pointer-lock and stacking rules of
the Wayland window.

- `src/` — the verified library. Each module's specification functions say
  what a function returns; `law_*` proof functions state properties across
  calls (a split log line still parses, an escaped link stays one JSON
  string, a key after focus is lost is never seen, and so on).
- `tests/` — runtime tests of the library.
- `app/` — the I/O around it: the log directory, the settings cache and
  fetch, the control socket, the process's arguments and environment.

`serde_json` parses and writes JSON; the library reads what it parses as its
own `Json` value.
