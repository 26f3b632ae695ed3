//! Selective bundling of remotely hosted scripts.
//!
//! The library flattens an entry script and its imports into one document:
//! it classifies each line, extracts only the requested symbols from a shared
//! helper module by indentation-delimited scanning, resolves sibling and
//! adjacent scripts, and packages the flattened documents into an archive.
//! Retrieval of remote text is left to the caller; every function here is a
//! pure computation over the lines it is handed.

pub mod archive;
pub mod bundle;
pub mod extract;
pub mod imports;
pub mod paths;
pub mod text;
