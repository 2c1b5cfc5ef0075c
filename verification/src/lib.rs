//! A library for an interactive terminal hex editor: the editing state
//! machine, modification tracking, hex/text search, and the row-composition
//! buffer that turns styled fragments into minimal draw calls.

pub mod buffer;
pub mod cfg;
pub mod codec;
pub mod input;
pub mod line;
pub mod render;
pub mod search;
pub mod state;
