//! Core logic of a desktop settings panel with a screenshot tool: hotkey
//! parsing, undo/redo history of annotations, scroll-capture stitching,
//! timestamped file names and the small decisions the UI layer acts upon.

pub mod hotkey;
pub mod history;
pub mod window;
pub mod datetime;
pub mod scroll;
pub mod session;
pub mod settings;
pub mod tray;
pub mod capture;
