//! Language-specific line cleaning.
//!
//! One cleaner per language family, dispatched by file extension. Each
//! cleaner removes comments (statefully across lines where the language has
//! block comments), optionally drops directives, imports and signatures, and
//! keeps only lines long enough to be worth comparing.

pub mod c;
pub mod common;
pub mod csharp;
pub mod dispatch;
pub mod css;
pub mod erlang;
pub mod html;
pub mod java;
pub mod javascript;
pub mod python;
pub mod rust_lang;
pub mod unknown;
pub mod vb;

pub use common::{clean_whitespace, is_valid_line};
pub use dispatch::{create_file_type, FileType, FileTypeKind};
