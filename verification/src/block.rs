//! A detected duplicate block between two file positions.

use vstd::prelude::*;

verus! {

/// A duplicate code block between two files (or two positions of one file).
#[derive(Debug, Clone, Copy, PartialEq, Eq, Structural)]
pub struct Block {
    /// Index of the first source file in the file list.
    pub source1_idx: usize,
    /// Index of the second source file in the file list.
    pub source2_idx: usize,
    /// Starting line index in source1, 0-indexed into cleaned lines.
    pub line1: usize,
    /// Starting line index in source2, 0-indexed into cleaned lines.
    pub line2: usize,
    /// Number of consecutive matching lines.
    pub count: usize,
}

impl Block {
    /// Create a new block.
    pub fn new(source1_idx: usize, source2_idx: usize, line1: usize, line2: usize, count: usize) -> (r:
        Self)
        ensures
            r == (Block { source1_idx, source2_idx, line1, line2, count }),
    {
        Block { source1_idx, source2_idx, line1, line2, count }
    }

    /// Whether this is a self-duplicate, within one file.
    pub fn is_self_duplicate(&self) -> (r: bool)
        ensures
            r == (self.source1_idx == self.source2_idx),
    {
        self.source1_idx == self.source2_idx
    }

    /// The ending line index in source1, exclusive.
    pub fn end1(&self) -> (r: usize)
        requires
            self.line1 + self.count <= usize::MAX,
        ensures
            r == self.line1 + self.count,
    {
        self.line1 + self.count
    }

    /// The ending line index in source2, exclusive.
    pub fn end2(&self) -> (r: usize)
        requires
            self.line2 + self.count <= usize::MAX,
        ensures
            r == self.line2 + self.count,
    {
        self.line2 + self.count
    }
}

} // verus!
