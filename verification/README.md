# disgreet

A terminal greeter for greetd: it
shows a login form over an optional background picture, offers the Wayland
sessions described in `/usr/share/wayland-sessions/` plus a login shell, and
logs the user in through the greetd socket.

The library under `src/` is verified with Verus:

- `ui.rs` — the login form: focus, typed fields, session choice, what each
  key does and what the box shows;
- `protocol.rs` — the JSON and framing of greetd messages and the
  request/reply exchange of a login;
- `session.rs` — sessions, desktop entry files and the always-present bash
  session;
- `background.rs` — the background raster, its cache path and cell colours;
- `layout.rs` — where the login box is placed;
- `text.rs` — white space, word splitting and decimal rendering.

`app/` is the program around it: command line, logging, files, the terminal
(ratatui, crossterm) and the greetd socket.
