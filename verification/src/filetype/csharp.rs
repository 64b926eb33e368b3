//! C# line cleaning.

use vstd::prelude::*;

verus! {

use crate::filetype::common::{
    c_strip, is_valid_trimmed, line_models, lines_wf, strip_c_comments, valid_line,
};
use crate::line::SourceLine;
use crate::text::{chars_to_string, str_chars, trim_chars, trim_spec, trimmed_first_is};

/// C# source processor: C-style comments, `#` directives always dropped.
pub struct CSharpFileType {
    /// Minimum byte count for a kept line.
    pub min_chars: u32,
}

/// What one raw line yields under the C# cleaner.
pub open spec fn csharp_line_output(line: Seq<char>, in_bc: bool, min_chars: u32) -> Option<
    Seq<char>,
> {
    let t = trim_spec(c_strip(line, in_bc, true).0);
    if t.len() == 0 {
        Option::None
    } else if trimmed_first_is(t, '#') {
        Option::None
    } else if valid_line(t, min_chars) {
        Option::Some(t)
    } else {
        Option::None
    }
}

/// The cleaned lines produced from raw line `i` onward.
pub open spec fn csharp_clean_from(lines: Seq<Seq<char>>, i: int, in_bc: bool, min_chars: u32) -> Seq<
    (Seq<char>, int),
>
    decreases lines.len() - i,
{
    if i < 0 || i >= lines.len() {
        Seq::empty()
    } else {
        let rest = csharp_clean_from(lines, i + 1, c_strip(lines[i], in_bc, true).1, min_chars);
        match csharp_line_output(lines[i], in_bc, min_chars) {
            Option::Some(t) => seq![(t, i + 1)] + rest,
            Option::None => rest,
        }
    }
}

impl CSharpFileType {
    /// Create a new C# processor.
    pub fn new(min_chars: u32) -> (r: Self)
        ensures
            r.min_chars == min_chars,
    {
        CSharpFileType { min_chars }
    }

    /// Whether a line is a C# preprocessor directive.
    pub fn is_preprocessor_directive(line: &str) -> (r: bool)
        ensures
            r == trimmed_first_is(line@, '#'),
    {
        let chars = str_chars(line);
        crate::text::trimmed_starts_char(&chars, '#')
    }

    /// Clean a whole file.
    pub fn get_cleaned_source_lines(&self, lines: &Vec<String>) -> (r: Vec<SourceLine>)
        ensures
            line_models(r@) == csharp_clean_from(
                lines@.map_values(|s: String| s@),
                0,
                false,
                self.min_chars,
            ),
            lines_wf(r@),
    {
        let ghost all = lines@.map_values(|s: String| s@);
        let mut result: Vec<SourceLine> = Vec::new();
        let mut in_bc = false;
        let mut idx: usize = 0;
        while idx < lines.len()
            invariant
                0 <= idx <= lines@.len(),
                all == lines@.map_values(|s: String| s@),
                all.len() == lines@.len(),
                csharp_clean_from(all, 0, false, self.min_chars) =~= line_models(result@)
                    + csharp_clean_from(all, idx as int, in_bc, self.min_chars),
                lines_wf(result@),
            decreases lines@.len() - idx,
        {
            let chars = str_chars(lines[idx].as_str());
            proof {
                assert(all[idx as int] == lines@[idx as int]@);
            }
            let (stripped, bc2) = strip_c_comments(&chars, in_bc, true);
            let trimmed = trim_chars(&stripped);
            let ghost t = trim_spec(c_strip(all[idx as int], in_bc, true).0);
            let ghost prev = line_models(result@);
            if trimmed.len() > 0 {
                let ts = chars_to_string(&trimmed);
                let keep = if Self::is_preprocessor_directive(ts.as_str()) {
                    false
                } else {
                    is_valid_trimmed(&trimmed, &ts, self.min_chars)
                };
                if keep {
                    let l = SourceLine::new(ts, idx + 1);
                    result.push(l);
                    proof {
                        assert(line_models(result@) =~= prev.push((t, idx + 1)));
                        assert(line_models(result@) + csharp_clean_from(
                            all,
                            idx + 1,
                            bc2,
                            self.min_chars,
                        ) =~= prev + (seq![(t, idx as int + 1)] + csharp_clean_from(
                            all,
                            idx + 1,
                            bc2,
                            self.min_chars,
                        )));
                    }
                }
            }
            in_bc = bc2;
            idx = idx + 1;
        }
        proof {
            assert(csharp_clean_from(all, idx as int, in_bc, self.min_chars) =~= Seq::<
                (Seq<char>, int),
            >::empty());
            assert(line_models(result@) + Seq::<(Seq<char>, int)>::empty() =~= line_models(
                result@,
            ));
        }
        result
    }
}

/// Cleaning idempotence: a line the C# cleaner keeps, cleaned again on its
/// own from a fresh state, is kept unchanged.
pub proof fn lemma_cleaning_idempotent(line: Seq<char>, in_bc: bool, min_chars: u32)
    requires
        csharp_line_output(line, in_bc, min_chars) is Some,
    ensures
        csharp_line_output(csharp_line_output(line, in_bc, min_chars).unwrap(), false, min_chars)
            == csharp_line_output(line, in_bc, min_chars),
{
    crate::filetype::common::lemma_stripped_trimmed_fixed(line, in_bc);
}

} // verus!
