//! The library logic of EpubSync: the records a library holds, the rules
//! that turn them into names, rows and text, and the pieces of import,
//! edit and display that decide rather than read or write.

pub mod text;
pub mod metadata;
pub mod cover;
pub mod library;
pub mod viewer;
pub mod form;
pub mod fixtures;
pub mod import;
