# novluno_sdl

The input and drawing logic of an SDL game client, verified with Verus.

The library (`src/`) holds the client's decisions as plain state and plain
draw commands; `app/` wraps it around SDL (window, event pump, game
controllers, canvas, font rasterization).

- `rect`: screen rectangles and points with SDL's clamping rules
  (positions and sizes held to half the `i32` range, sizes never zero),
  moving, overlapping and enclosing.
- `geometry`: map-space points and rectangles spanned by two corners.
- `input`: button states, the keyboard controller, the key-to-button map.
- `sdl`: window size, requested audio format, joystick count and controller
  slots.
- `events`: handling one event: what it does to the input state and the
  controller slots, and what is left to the caller.
- `layout`: the row-by-row order of map tiles.
- `render`: which tiles are in view and the draw commands of a frame.
- `text`: writing rasterized glyph pixels into a texture buffer.

Run `verus` on `src/lib.rs` to check the proofs; `tests/` exercises the
library on concrete values.
