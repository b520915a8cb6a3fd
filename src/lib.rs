//! The editing core of a terminal text editor: a gap-buffer text store,
//! UTF-8 aware cursor navigation, grouped undo/redo and substring search.

pub mod buffer;
pub mod text;
pub mod cursor;
pub mod undo;
pub mod search;
pub mod render;
pub mod terminal;
pub mod input;
pub mod editor;
