//! A small branching-story engine: records are read from delimited text,
//! folded into a graph of story nodes keyed by tag, and walked one choice at
//! a time while a life counter is kept.

pub mod graph;
pub mod laws;
pub mod load;
pub mod reader;
pub mod record;
pub mod session;
pub mod text;
