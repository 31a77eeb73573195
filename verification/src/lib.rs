//! The core of a modal, keyboard-driven text editor: the text buffer with
//! its cursor-based editing, and the incrementally filtered,
//! single-selection pickers for files, color schemes and commands.
//! Everything here is pure state and computation; windowing, fonts and the
//! filesystem live with the caller, which hands in plain values (text, key
//! presses, directory listings) and reads the resulting state back.
pub mod actions;
pub mod buffer;
pub mod config;
pub mod file_assist;
pub mod file_picker;
pub mod filter;
pub mod item_picker;
pub mod keys;
pub mod strutil;
