//! Locating, selecting and classifying installations of `libclang`: the
//! rules for where to look, which candidate to take, how to read versions,
//! and the registry that holds the opened library.

pub mod text;
pub mod paths;
pub mod version_key;
pub mod select;
pub mod probe;
pub mod discovery;
pub mod platform;
pub mod search;
pub mod linking;
pub mod loader;
