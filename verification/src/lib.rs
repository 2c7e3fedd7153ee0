//! Core of a terminal text editor: Unicode-aware lines, annotated text for
//! search highlighting, a document buffer, and a viewport/cursor controller.
pub mod annotated;
pub mod buffer;
pub mod chars;
pub mod command;
pub mod commandbar;
pub mod documentstatus;
pub mod editor;
pub mod fileinfo;
pub mod line;
pub mod messagebar;
pub mod search;
pub mod statusbar;
pub mod types;
pub mod unicode;
pub mod view;
pub mod window;

pub use types::ColIdx;
pub use types::GraphemeIdx;
pub use types::LineIdx;
pub use types::Location;
pub use types::Position;
pub use types::RowIdx;
pub use types::Size;
