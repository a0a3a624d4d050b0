//! An interactive terminal shell core: a screen/overlay state machine, a
//! rope-backed text editing engine with undo/redo and search, a root-confined
//! file explorer, and a command registry with fuzzy suggestions.
//!
//! This crate holds the verified logic only; rendering and all I/O live with
//! the caller, which hands plain values (key events, directory listings, file
//! contents) in and carries actions (reads, writes, process launches) out.

pub mod editor;
pub mod explorer;
pub mod files;
pub mod history;
pub mod paths;
pub mod tabs;
pub mod terminal;
pub mod theme;
pub mod registry;
pub mod rope;
pub mod router;
pub mod text;
pub mod util;
