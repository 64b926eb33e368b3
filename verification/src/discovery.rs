//! Recognition of supported source files during discovery.
//!
//! Walking the version-control tree and collecting candidate paths is I/O
//! and lives with the binary; the extension filter applied to each path is
//! pure and verified here.

use vstd::prelude::*;

verus! {

use crate::text::{ascii_lower_seq, ends_with_str, has_suffix, str_chars, to_ascii_lower};

/// A path with a supported source extension, compared case-insensitively.
pub open spec fn supported_file_spec(path: Seq<char>) -> bool {
    let l = ascii_lower_seq(path);
    ||| has_suffix(l, ".c"@)
    ||| has_suffix(l, ".cpp"@)
    ||| has_suffix(l, ".cxx"@)
    ||| has_suffix(l, ".cc"@)
    ||| has_suffix(l, ".h"@)
    ||| has_suffix(l, ".hpp"@)
    ||| has_suffix(l, ".hxx"@)
    ||| has_suffix(l, ".hh"@)
    ||| has_suffix(l, ".java"@)
    ||| has_suffix(l, ".cs"@)
    ||| has_suffix(l, ".py"@)
    ||| has_suffix(l, ".rs"@)
    ||| has_suffix(l, ".js"@)
    ||| has_suffix(l, ".ts"@)
    ||| has_suffix(l, ".jsx"@)
    ||| has_suffix(l, ".tsx"@)
    ||| has_suffix(l, ".html"@)
    ||| has_suffix(l, ".htm"@)
    ||| has_suffix(l, ".css"@)
    ||| has_suffix(l, ".vb"@)
    ||| has_suffix(l, ".erl"@)
}

/// Whether a file has a supported source code extension.
pub fn is_supported_file(path: &str) -> (r: bool)
    ensures
        r == supported_file_spec(path@),
{
    let chars = str_chars(path);
    let l = to_ascii_lower(&chars);
    ends_with_str(&l, ".c") || ends_with_str(&l, ".cpp") || ends_with_str(&l, ".cxx")
        || ends_with_str(&l, ".cc") || ends_with_str(&l, ".h") || ends_with_str(&l, ".hpp")
        || ends_with_str(&l, ".hxx") || ends_with_str(&l, ".hh") || ends_with_str(&l, ".java")
        || ends_with_str(&l, ".cs") || ends_with_str(&l, ".py") || ends_with_str(&l, ".rs")
        || ends_with_str(&l, ".js") || ends_with_str(&l, ".ts") || ends_with_str(&l, ".jsx")
        || ends_with_str(&l, ".tsx") || ends_with_str(&l, ".html") || ends_with_str(&l, ".htm")
        || ends_with_str(&l, ".css") || ends_with_str(&l, ".vb") || ends_with_str(&l, ".erl")
}

} // verus!
