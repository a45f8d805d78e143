//! Renders a grayscale image on a text terminal as braille glyphs, one glyph per
//! 2x4 block of pixels, and turns raw terminal input into key state and a stream
//! of events, one tick at a time.
//!
//! - [`glyph`]: the glyph encoder.
//! - [`keys`]: terminal key codes and the keys they name.
//! - [`key_set`]: a finite set of keys.
//! - [`input`]: input events and the key state.
//! - [`translate`]: the queue of raw events and the translation tick.
//! - [`resize`]: the render size that follows the terminal's size.

pub mod glyph;
pub mod input;
pub mod key_set;
pub mod keys;
pub mod resize;
pub mod translate;
