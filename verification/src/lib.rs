//! Rendering pipeline for the history log of a versioned store.
//!
//! The library renders a bounded, ordered walk over history entries either as
//! a flat list or as an incremental ASCII graph, with each entry's text
//! produced by a compiled template and wrapped to the terminal width that the
//! graph column leaves free.

pub mod args;
pub mod entry;
pub mod errors;
pub mod graph;
pub mod pipeline;
pub mod settings;
pub mod stream;
pub mod template;
pub mod textfmt;
