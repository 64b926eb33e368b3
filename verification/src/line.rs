//! A processed source line: cleaned text, original position, and hash.

use vstd::prelude::*;

verus! {

use crate::hash::{hash_line, line_hash_spec};

/// A single processed source code line.
#[derive(Debug, Clone)]
pub struct SourceLine {
    /// The cleaned line text, after comment removal and trimming.
    pub line: String,
    /// Original line number in the source file, 1-indexed for display.
    pub line_number: usize,
    /// FNV-1a hash of the whitespace-normalized line.
    pub hash: u32,
}

impl SourceLine {
    /// The stored hash is the line hash of the stored text.
    pub open spec fn wf(self) -> bool {
        self.hash == line_hash_spec(vstd::utf8::encode_utf8(self.line@))
    }

    /// Create a new line with its hash computed from the text.
    pub fn new(line: String, line_number: usize) -> (r: Self)
        ensures
            r.line@ == line@,
            r.line_number == line_number,
            r.hash == line_hash_spec(vstd::utf8::encode_utf8(line@)),
            r.wf(),
    {
        let hash = hash_line(line.as_str());
        SourceLine { line, line_number, hash }
    }

    /// The cleaned text.
    pub fn line(&self) -> (r: &str)
        ensures
            r@ == self.line@,
    {
        self.line.as_str()
    }

    /// The original 1-indexed line number.
    pub fn line_number(&self) -> (r: usize)
        ensures
            r == self.line_number,
    {
        self.line_number
    }

    /// The hash value.
    pub fn hash(&self) -> (r: u32)
        ensures
            r == self.hash,
    {
        self.hash
    }
}

impl PartialEq for SourceLine {
    /// Two source lines are equal when their hashes match; this is the fast
    /// comparison duplicate detection relies on.
    fn eq(&self, other: &Self) -> (r: bool) {
        self.hash == other.hash
    }
}

impl Eq for SourceLine {

}

impl vstd::std_specs::cmp::PartialEqSpecImpl for SourceLine {
    open spec fn obeys_eq_spec() -> bool {
        true
    }

    open spec fn eq_spec(&self, other: &Self) -> bool {
        self.hash == other.hash
    }
}

} // verus!
