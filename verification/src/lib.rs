//! Verified core of a plain-text editor's user interface: the text buffer
//! with undo history, cursor movement and editing commands, the display
//! mapping of control characters, search highlighting and the labels shown
//! by the status bar and the settings panel.

pub mod text;
pub mod artifact;
pub mod highlights;
pub mod display_text;
pub mod types;
pub mod piece_tree;
pub mod word_boundary;
pub mod cursor;
pub mod buffer;
pub mod editing;
pub mod view;
pub mod editor;
pub mod highlighting;
pub mod search;
pub mod search_shortcuts;
pub mod status;
pub mod settings_labels;
pub mod scrolling;
pub mod keyboard;
pub mod char_bytes;
pub mod painting;
pub mod display_rows;
pub mod mouse;
