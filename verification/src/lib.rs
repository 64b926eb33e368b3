//! Detection of duplicated code across a corpus of source files.
//!
//! The crate cleans raw source lines per language, reduces line equality to a
//! 32-bit FNV-1a hash compare, prunes candidate file pairs with an inverted
//! index over line hashes, and extracts every maximal diagonal run of matching
//! lines of at least the configured minimum length.

pub mod baseline;
pub mod block;
pub mod cache;
pub mod config;
pub mod detect;
pub mod discovery;
pub mod engine;
pub mod error;
pub mod export;
pub mod filetype;
pub mod hash;
pub mod index;
pub mod line;
pub mod source_file;
pub mod text;
