//! A verified line-oriented text-editing core: a text store addressed by
//! (line, character-column) coordinates, an edit controller that keeps a
//! cursor inside the text, and the small value types of the surrounding
//! editor (colors, geometry, key commands, input-button states).

pub mod text;
pub mod text_buffer;
pub mod text_stage;
pub mod stage;
pub mod types;
pub mod minibuffer;
pub mod image;
pub mod basic;
pub mod theme;
pub mod widgets;
pub mod input;
pub mod config;
pub mod font;
