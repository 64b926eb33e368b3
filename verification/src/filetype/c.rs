//! C/C++ line cleaning.

use vstd::prelude::*;

verus! {

use crate::filetype::common::{
    c_strip, is_valid_trimmed, line_models, lines_wf, strip_c_comments, valid_line,
};
use crate::line::SourceLine;
use crate::text::{chars_to_string, str_chars, trim_chars, trim_spec, trim_start_spec};

/// C/C++ source processor: `/* */` block comments, `//` line comments, and
/// optional `#` preprocessor filtering.
pub struct CFileType {
    /// Whether preprocessor directives are dropped.
    pub ignore_preprocessor: bool,
    /// Minimum byte count for a kept line.
    pub min_chars: u32,
}

/// A line whose first non-blank character is `#`.
pub open spec fn c_directive_spec(s: Seq<char>) -> bool {
    trim_start_spec(s).len() > 0 && trim_start_spec(s)[0] == '#'
}

/// What one raw line yields under the C cleaner: the kept text, or nothing.
pub open spec fn c_line_output(line: Seq<char>, in_bc: bool, ignore_pre: bool, min_chars: u32) -> Option<
    Seq<char>,
> {
    let t = trim_spec(c_strip(line, in_bc, true).0);
    if t.len() == 0 {
        Option::None
    } else if ignore_pre && c_directive_spec(t) {
        Option::None
    } else if valid_line(t, min_chars) {
        Option::Some(t)
    } else {
        Option::None
    }
}

/// The block-comment state after one raw line.
pub open spec fn c_next_state(line: Seq<char>, in_bc: bool) -> bool {
    c_strip(line, in_bc, true).1
}

/// The cleaned lines produced from raw line `i` onward, with the
/// block-comment state carried across lines. Each kept line is paired with
/// its 1-indexed original line number.
pub open spec fn c_clean_from(
    lines: Seq<Seq<char>>,
    i: int,
    in_bc: bool,
    ignore_pre: bool,
    min_chars: u32,
) -> Seq<(Seq<char>, int)>
    decreases lines.len() - i,
{
    if i < 0 || i >= lines.len() {
        Seq::empty()
    } else {
        let rest = c_clean_from(lines, i + 1, c_next_state(lines[i], in_bc), ignore_pre, min_chars);
        match c_line_output(lines[i], in_bc, ignore_pre, min_chars) {
            Option::Some(t) => seq![(t, i + 1)] + rest,
            Option::None => rest,
        }
    }
}

impl CFileType {
    /// Create a new C/C++ processor.
    pub fn new(ignore_preprocessor: bool, min_chars: u32) -> (r: Self)
        ensures
            r.ignore_preprocessor == ignore_preprocessor,
            r.min_chars == min_chars,
    {
        CFileType { ignore_preprocessor, min_chars }
    }

    /// Whether a line is a preprocessor directive.
    pub fn is_preprocessor_directive(line: &str) -> (r: bool)
        ensures
            r == c_directive_spec(line@),
    {
        let chars = str_chars(line);
        let n = chars.len();
        let mut lo: usize = 0;
        while lo < n && crate::text::is_space_char(chars[lo])
            invariant
                0 <= lo <= n == chars@.len(),
                forall|k: int| 0 <= k < lo ==> crate::text::is_space(chars@[k]),
            decreases n - lo,
        {
            lo = lo + 1;
        }
        proof {
            crate::text::lemma_trim_start_at(line@, lo as int);
        }
        lo < n && chars[lo] == '#'
    }

    /// Clean a whole file: strip comments statefully, trim, filter.
    pub fn get_cleaned_source_lines(&self, lines: &Vec<String>) -> (r: Vec<SourceLine>)
        ensures
            line_models(r@) == c_clean_from(
                lines@.map_values(|s: String| s@),
                0,
                false,
                self.ignore_preprocessor,
                self.min_chars,
            ),
            lines_wf(r@),
    {
        let ghost all = lines@.map_values(|s: String| s@);
        let mut result: Vec<SourceLine> = Vec::new();
        let mut in_bc = false;
        let mut idx: usize = 0;
        while idx < lines.len()
            invariant
                0 <= idx <= lines@.len(),
                all == lines@.map_values(|s: String| s@),
                all.len() == lines@.len(),
                c_clean_from(all, 0, false, self.ignore_preprocessor, self.min_chars)
                    =~= line_models(result@) + c_clean_from(
                    all,
                    idx as int,
                    in_bc,
                    self.ignore_preprocessor,
                    self.min_chars,
                ),
                lines_wf(result@),
            decreases lines@.len() - idx,
        {
            let chars = str_chars(lines[idx].as_str());
            proof {
                assert(all[idx as int] == lines@[idx as int]@);
            }
            let (stripped, bc2) = strip_c_comments(&chars, in_bc, true);
            let trimmed = trim_chars(&stripped);
            let ghost t = trim_spec(c_strip(all[idx as int], in_bc, true).0);
            let ghost prev = line_models(result@);
            if trimmed.len() > 0 {
                let ts = chars_to_string(&trimmed);
                let keep = if self.ignore_preprocessor && Self::is_preprocessor_directive(
                    ts.as_str(),
                ) {
                    false
                } else {
                    is_valid_trimmed(&trimmed, &ts, self.min_chars)
                };
                if keep {
                    let l = SourceLine::new(ts, idx + 1);
                    result.push(l);
                    proof {
                        assert(line_models(result@) =~= prev.push((t, idx + 1)));
                        assert(line_models(result@) + c_clean_from(
                            all,
                            idx + 1,
                            bc2,
                            self.ignore_preprocessor,
                            self.min_chars,
                        ) =~= prev + (seq![(t, idx as int + 1)] + c_clean_from(
                            all,
                            idx + 1,
                            bc2,
                            self.ignore_preprocessor,
                            self.min_chars,
                        )));
                    }
                }
            }
            in_bc = bc2;
            idx = idx + 1;
        }
        proof {
            assert(c_clean_from(
                all,
                idx as int,
                in_bc,
                self.ignore_preprocessor,
                self.min_chars,
            ) =~= Seq::<(Seq<char>, int)>::empty());
            assert(line_models(result@) + Seq::<(Seq<char>, int)>::empty() =~= line_models(
                result@,
            ));
        }
        result
    }
}

/// Cleaning idempotence: a line the C cleaner keeps, cleaned again on its
/// own from a fresh state, is kept unchanged.
pub proof fn lemma_cleaning_idempotent(
    line: Seq<char>,
    in_bc: bool,
    ignore_pre: bool,
    min_chars: u32,
)
    requires
        c_line_output(line, in_bc, ignore_pre, min_chars) is Some,
    ensures
        c_line_output(
            c_line_output(line, in_bc, ignore_pre, min_chars).unwrap(),
            false,
            ignore_pre,
            min_chars,
        ) == c_line_output(line, in_bc, ignore_pre, min_chars),
{
    crate::filetype::common::lemma_stripped_trimmed_fixed(line, in_bc);
}

} // verus!
