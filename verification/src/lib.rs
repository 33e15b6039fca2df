//! Input handling, controller bookkeeping and map drawing for an SDL game
//! client, as plain state and plain draw commands.
//!
//! - `rect`: screen rectangles and points with SDL's clamping rules.
//! - `geometry`: map-space points and corner-spanned rectangles.
//! - `input`: button states, the keyboard controller and the key map.
//! - `sdl`: the client's SDL state (window size, audio request, controller
//!   slots).
//! - `events`: handling one window-system event.
//! - `layout`: the row-by-row order of map tiles.
//! - `render`: the draw commands of a frame.
//! - `text`: writing glyph pixels into a text texture.
pub mod events;
pub mod geometry;
pub mod input;
pub mod layout;
pub mod rect;
pub mod render;
pub mod sdl;
pub mod text;
