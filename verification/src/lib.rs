//! Core of a terminal log aggregator: entries from several live sources are
//! merged into one time-ordered, filterable, scrollable view, driven by a
//! small command language.
//!
//! Everything here is plain data and pure transition functions; the terminal
//! backend, the producer threads and all file and process I/O live outside
//! this crate and only exchange plain values with it.

pub mod command_prompt;
pub mod commands;
pub mod event_loop;
pub mod log_entry;
pub mod log_storage;
pub mod log_viewer;
pub mod settings;
pub mod tail;
pub mod text;
