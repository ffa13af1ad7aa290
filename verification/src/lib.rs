//! The core of a terminal line editor: rows of text addressed by
//! grapheme cluster, a document made of rows, substring search in both
//! directions, a lexical scan that gives every character a highlight class,
//! and the decisions of an editing session that works on such a document.

pub mod cursor;
pub mod document;
pub mod editor;
pub mod filetype;
pub mod grapheme;
pub mod highlighting;
pub mod matches;
pub mod prompt;
pub mod render;
pub mod row;
pub mod scan;
pub mod status;
pub mod text;

pub use document::Document;
pub use editor::{Command, Editor, Key, Position, SearchDirection, Size, TerminalMode};
pub use filetype::{FileType, HighlightingOptions};
pub use highlighting::{Colour, Type};
pub use render::Palette;
pub use row::Row;
