//! Core of a terminal log viewer with live tailing and filtering: the line
//! index of a growing file, a filtered projection of it, and the windowed
//! caches that the panes render from. Each actor is a state machine whose
//! handlers return the messages it sends; the runtime that carries those
//! messages lives outside this crate.

pub mod backing_file;
pub mod colour_spec;
pub mod common;
pub mod ffile;
pub mod filter_spec;
pub mod ifile;
pub mod reader;
pub mod view;
