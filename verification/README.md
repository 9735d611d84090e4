# evilwm

The rules of the evilwm canvas compositor, verified with Verus, and a small program
around them.

- `src/` is the library. Each public function states in its contract what it returns
  or changes, and Verus proves it:
  - `canvas`, `number`: integer canvas geometry, and configuration numbers held as
    IEEE 754 bit patterns with their comparisons decided exactly.
  - `text`: trimming, case changes and ordering of text, as `str` does them.
  - `input`: key specifications, key normalization, bindings, and the decisions taken
    on key presses and pointer buttons (`dispatch`).
  - `window`: the window model, focus order, moving, resizing, snapping, placement,
    rules and initial sizes.
  - `output`: the layout of outputs, pointer clamping and which output a window is on.
  - `config`: the configuration, the tables a config script hands over, and the checks.
  - `session`: the headless window session.
  - `hooks`, `draw`: what script hooks see and hand back, and their error log.
  - `tty`, `backend`, `runtime`, `ipc`, `paths`, `probe`, `render`, `interactive`: session
    control keys, backend choice, startup commands, control requests, path checks, the
    data-transfer probes' decisions, stroke geometry and interactive move/resize.
- `app/` is the `evilwm` program: command line, loading a config script with Lua,
  the floating-point camera, and the headless run.
- `tests/` runs the library on concrete values.
