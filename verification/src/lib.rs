//! An index of the Markdown documents in a directory tree.
//!
//! A walk through the tree yields entries. The index is a Markdown text with
//! one line for each entry that is a Markdown document: a link to the
//! document, by its path seen from the root of the walk, and the date at which
//! it was last modified.

pub mod cli;
pub mod date;
pub mod entry;
pub mod index;
pub mod laws;
pub mod path;
pub mod text;
pub mod trusted;
