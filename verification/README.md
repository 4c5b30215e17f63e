# niri-waybar-windowlist

A waybar module that shows one button per window of the niri compositor,
with the logic behind it verified by Verus.

## Layout

- `src/` is the verified library. Every function there carries a contract
  that Verus proves:
  - `tracker`, `snapshot`, `windows`, `keyed`: the state kept from the
    compositor's event stream, and the ordered, highlighted list of windows
    sent to the buttons.
  - `clicks`, `drag`: what a press, release, scroll or drag does, as plans
    of compositor requests and as the step-by-step move of a column.
  - `window_list`: which windows get a button, which output is shown, which
    terminals have their foreground process read, and the icon cache.
  - `settings`, `titles`, `patterns`: the configuration, the title rules
    and their rendering, and regular expressions.
  - `media`, `notify`, `process`, `colors`: media players on the session
    bus, notifications and their senders' ancestry, the process table, and
    the border colours read from niri's KDL configuration.
  - `text`, `strmap`: string helpers and a small string-keyed map.
- `tests/` runs the library on concrete inputs.
- `app/` is the module itself: configuration parsing, the compositor's
  socket, the session bus, `/proc`, and the GTK widgets. It hands the
  library plain values and acts on what comes back.

The public proof functions named `law_*` state properties of the library
as a whole, such as what a closed window does to the next snapshot, or that
a cached entry survives other calls.
