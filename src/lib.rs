//! The text-editing core of a terminal text editor: grapheme-aware lines,
//! annotated display slices, a document buffer, a cursor and viewport
//! controller with incremental search, and the editor's prompt modes.
pub mod text;

pub mod line;

pub mod annotated_string;

pub mod buffer;

pub mod position;

pub mod command;

pub mod view;

pub mod commandbar;

pub mod editor;

pub mod statusbar;
