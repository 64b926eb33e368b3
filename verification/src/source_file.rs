//! A loaded and processed source file.

use vstd::prelude::*;

verus! {

use vstd::string::StrSliceExecFns;
use crate::line::SourceLine;
use crate::text::{rfind_char, str_chars};

/// The part of a path after its last `/` separator; the whole path when it
/// has none.
pub open spec fn basename_spec(s: Seq<char>) -> Seq<char>
    decreases s.len(),
{
    if s.len() == 0 {
        s
    } else if s.last() == '/' {
        Seq::empty()
    } else {
        basename_spec(s.drop_last()).push(s.last())
    }
}

/// With the last `/` at position `i`, the basename is the suffix after it.
proof fn lemma_basename_after_slash(s: Seq<char>, i: int)
    requires
        0 <= i < s.len(),
        s[i] == '/',
        forall|j: int| i < j < s.len() ==> s[j] != '/',
    ensures
        basename_spec(s) =~= s.subrange(i + 1, s.len() as int),
    decreases s.len(),
{
    if i == s.len() - 1 {
    } else {
        lemma_basename_after_slash(s.drop_last(), i);
        assert(s.drop_last().subrange(i + 1, s.len() - 1) =~= s.subrange(i + 1, s.len() - 1));
    }
}

/// Without any `/`, the basename is the whole path.
proof fn lemma_basename_no_slash(s: Seq<char>)
    requires
        forall|j: int| 0 <= j < s.len() ==> s[j] != '/',
    ensures
        basename_spec(s) =~= s,
    decreases s.len(),
{
    if s.len() > 0 {
        lemma_basename_no_slash(s.drop_last());
    }
}

/// A loaded and processed source file.
#[derive(Debug)]
pub struct SourceFile {
    /// Full path to the file.
    pub filename: String,
    /// Processed source lines, after cleaning and filtering.
    pub source_lines: Vec<SourceLine>,
}

impl SourceFile {
    /// Every stored line carries the hash of its own text.
    pub open spec fn wf(self) -> bool {
        forall|k: int| 0 <= k < self.source_lines@.len() ==> (#[trigger] self.source_lines@[k]).wf()
    }

    /// The sequence of line hashes, which detection compares.
    pub open spec fn hashes(self) -> Seq<u32> {
        self.source_lines@.map_values(|l: SourceLine| l.hash)
    }

    /// Create a source file from already-processed lines.
    pub fn from_lines(filename: String, source_lines: Vec<SourceLine>) -> (r: Self)
        ensures
            r.filename@ == filename@,
            r.source_lines@ == source_lines@,
    {
        SourceFile { filename, source_lines }
    }

    /// Build a source file from its raw text lines: select the cleaner for
    /// the path's extension and run it.
    pub fn from_raw_lines(
        path: String,
        raw_lines: &Vec<String>,
        ignore_preprocessor: bool,
        min_chars: u32,
    ) -> (r: Self)
        ensures
            r.filename@ == path@,
            crate::filetype::common::line_models(r.source_lines@)
                == crate::filetype::dispatch::kind_clean_spec(
                crate::filetype::dispatch::file_type_kind_spec(
                    path@,
                    ignore_preprocessor,
                    min_chars,
                ),
                raw_lines@,
            ),
            r.wf(),
    {
        let file_type = crate::filetype::dispatch::create_file_type(
            path.as_str(),
            ignore_preprocessor,
            min_chars,
        );
        let source_lines = file_type.get_cleaned_source_lines(raw_lines);
        SourceFile { filename: path, source_lines }
    }

    /// The full path.
    pub fn filename(&self) -> (r: &str)
        ensures
            r@ == self.filename@,
    {
        self.filename.as_str()
    }

    /// The file name without its directory path.
    pub fn basename(&self) -> (r: String)
        ensures
            r@ == basename_spec(self.filename@),
    {
        let chars = str_chars(self.filename.as_str());
        let n = chars.len();
        match rfind_char(&chars, '/') {
            Some(i) => {
                proof {
                    lemma_basename_after_slash(self.filename@, i as int);
                }
                let tail = self.filename.as_str().substring_char(i + 1, n);
                tail.to_owned()
            },
            None => {
                proof {
                    lemma_basename_no_slash(self.filename@);
                }
                let whole = self.filename.as_str();
                whole.to_owned()
            },
        }
    }

    /// The number of cleaned source lines.
    pub fn num_lines(&self) -> (r: usize)
        ensures
            r == self.source_lines@.len(),
    {
        self.source_lines.len()
    }

    /// A specific line by index.
    pub fn get_line(&self, index: usize) -> (r: &SourceLine)
        requires
            index < self.source_lines@.len(),
        ensures
            r == self.source_lines@[index as int],
    {
        &self.source_lines[index]
    }

    /// The texts of a range of lines.
    pub fn get_lines<'a>(&'a self, start: usize, end: usize) -> (r: Vec<&'a str>)
        requires
            start <= end <= self.source_lines@.len(),
        ensures
            r@.len() == end - start,
            forall|k: int|
                0 <= k < r@.len() ==> (#[trigger] r@[k])@ == self.source_lines@[start + k].line@,
    {
        let mut r: Vec<&str> = Vec::new();
        let mut i: usize = start;
        while i < end
            invariant
                start <= i <= end <= self.source_lines@.len(),
                r@.len() == i - start,
                forall|k: int|
                    0 <= k < r@.len() ==> (#[trigger] r@[k])@ == self.source_lines@[start
                        + k].line@,
            decreases end - i,
        {
            r.push(self.source_lines[i].line.as_str());
            i = i + 1;
        }
        r
    }

    /// All source lines, in order.
    pub fn lines(&self) -> (r: &Vec<SourceLine>)
        ensures
            r@ == self.source_lines@,
    {
        &self.source_lines
    }

    /// Whether two files share a basename.
    pub fn has_same_basename(&self, other: &SourceFile) -> (r: bool)
        ensures
            r == (basename_spec(self.filename@) == basename_spec(other.filename@)),
    {
        let a = self.basename();
        let b = other.basename();
        a == b
    }
}

impl PartialEq for SourceFile {
    /// Two source files are equal when they name the same path.
    fn eq(&self, other: &Self) -> (r: bool) {
        self.filename == other.filename
    }
}

impl Eq for SourceFile {

}

impl vstd::std_specs::cmp::PartialEqSpecImpl for SourceFile {
    open spec fn obeys_eq_spec() -> bool {
        true
    }

    open spec fn eq_spec(&self, other: &Self) -> bool {
        self.filename@ == other.filename@
    }
}

} // verus!
