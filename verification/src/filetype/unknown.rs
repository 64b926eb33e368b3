//! Fallback cleaning for unrecognized file extensions.
//!
//! Performs minimal processing: trimming, plus the usual length and
//! alphabetic-content filter.

use vstd::prelude::*;

verus! {

use crate::filetype::common::{is_valid_trimmed, line_models, lines_wf, valid_line};
use crate::line::SourceLine;
use crate::text::{chars_to_string, str_chars, trim_chars, trim_spec};

/// Fallback processor for unknown file types.
pub struct UnknownFileType {
    /// Minimum byte count for a kept line.
    pub min_chars: u32,
}

/// What one raw line yields under the fallback cleaner.
pub open spec fn unknown_line_output(line: Seq<char>, min_chars: u32) -> Option<Seq<char>> {
    let t = trim_spec(line);
    if t.len() == 0 {
        Option::None
    } else if valid_line(t, min_chars) {
        Option::Some(t)
    } else {
        Option::None
    }
}

/// The cleaned lines produced from raw line `i` onward.
pub open spec fn unknown_clean_from(lines: Seq<Seq<char>>, i: int, min_chars: u32) -> Seq<
    (Seq<char>, int),
>
    decreases lines.len() - i,
{
    if i < 0 || i >= lines.len() {
        Seq::empty()
    } else {
        let rest = unknown_clean_from(lines, i + 1, min_chars);
        match unknown_line_output(lines[i], min_chars) {
            Option::Some(t) => seq![(t, i + 1)] + rest,
            Option::None => rest,
        }
    }
}

impl UnknownFileType {
    /// Create a new fallback processor.
    pub fn new(min_chars: u32) -> (r: Self)
        ensures
            r.min_chars == min_chars,
    {
        UnknownFileType { min_chars }
    }

    /// Clean a whole file: trim and filter only.
    pub fn get_cleaned_source_lines(&self, lines: &Vec<String>) -> (r: Vec<SourceLine>)
        ensures
            line_models(r@) == unknown_clean_from(
                lines@.map_values(|s: String| s@),
                0,
                self.min_chars,
            ),
            lines_wf(r@),
    {
        let ghost all = lines@.map_values(|s: String| s@);
        let mut result: Vec<SourceLine> = Vec::new();
        let mut idx: usize = 0;
        while idx < lines.len()
            invariant
                0 <= idx <= lines@.len(),
                all == lines@.map_values(|s: String| s@),
                all.len() == lines@.len(),
                unknown_clean_from(all, 0, self.min_chars) =~= line_models(result@)
                    + unknown_clean_from(all, idx as int, self.min_chars),
                lines_wf(result@),
            decreases lines@.len() - idx,
        {
            let chars = str_chars(lines[idx].as_str());
            proof {
                assert(all[idx as int] == lines@[idx as int]@);
            }
            let trimmed = trim_chars(&chars);
            let ghost t = trim_spec(all[idx as int]);
            let ghost prev = line_models(result@);
            if trimmed.len() > 0 {
                let ts = chars_to_string(&trimmed);
                if is_valid_trimmed(&trimmed, &ts, self.min_chars) {
                    let l = SourceLine::new(ts, idx + 1);
                    result.push(l);
                    proof {
                        assert(line_models(result@) =~= prev.push((t, idx + 1)));
                        assert(line_models(result@) + unknown_clean_from(
                            all,
                            idx + 1,
                            self.min_chars,
                        ) =~= prev + (seq![(t, idx as int + 1)] + unknown_clean_from(
                            all,
                            idx + 1,
                            self.min_chars,
                        )));
                    }
                }
            }
            idx = idx + 1;
        }
        proof {
            assert(unknown_clean_from(all, idx as int, self.min_chars) =~= Seq::<
                (Seq<char>, int),
            >::empty());
            assert(line_models(result@) + Seq::<(Seq<char>, int)>::empty() =~= line_models(
                result@,
            ));
        }
        result
    }
}

/// Cleaning idempotence: a line the fallback cleaner keeps, cleaned again
/// on its own, is kept unchanged.
pub proof fn lemma_cleaning_idempotent(line: Seq<char>, min_chars: u32)
    requires
        unknown_line_output(line, min_chars) is Some,
    ensures
        unknown_line_output(unknown_line_output(line, min_chars).unwrap(), min_chars)
            == unknown_line_output(line, min_chars),
{
    crate::text::lemma_trim_idempotent(line);
}

} // verus!
