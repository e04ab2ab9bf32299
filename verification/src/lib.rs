//! A verified core for a desktop file explorer: a filesystem node model,
//! directory-listing construction (skip unreadable entries, sort
//! directories-first then case-insensitively by name), a navigation/action
//! state machine (open node, close file, go up, search with a debounced
//! filter, info modal, pane layout), and a cancellable search debouncer.
//!
//! All filesystem and rendering work stays outside this crate; callers hand
//! in plain values (paths, metadata strings, file contents, listing results)
//! and drive the state machine through actions and the effects it requests.

pub mod app;
pub mod debounce;
pub mod fs_utils;
pub mod text;
