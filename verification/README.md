# cartographer

Press a hotkey, get a grid overlay, press two keys to pick a rectangle, and
the focused window is tiled to it.

- `src/` is the verified library (Verus): key names and keycodes (`keys`),
  the configuration and its checks (`config`), the grid and the two-key
  selection (`grid`), the event-tap decision for the hotkey (`hotkey`), the
  overlay's show/hide/key decisions (`app`), the text exchanged with the
  Aerospace command line (`aerospace`), and a monotonic clock model (`time`).
- `app/` is the macOS program around it: the event tap, the accessibility
  calls, the Swift overlay, the config file, and the float geometry.
- `tests/` runs the library on concrete values.
