//! CSS line cleaning.

use vstd::prelude::*;

verus! {

use crate::filetype::common::{
    c_strip, is_valid_trimmed, line_models, lines_wf, strip_c_comments, valid_line,
};
use crate::line::SourceLine;
use crate::text::{
    chars_to_string, has_prefix, str_chars, trim_chars, trim_spec, trim_start_spec,
    trimmed_starts_with,
};

/// CSS source processor: `/* */` block comments, import-style at-rules
/// always dropped.
pub struct CssFileType {
    /// Minimum byte count for a kept line.
    pub min_chars: u32,
}

/// A line that is an import-style CSS at-rule.
pub open spec fn css_directive_spec(s: Seq<char>) -> bool {
    ||| has_prefix(trim_start_spec(s), "@import "@)
    ||| has_prefix(trim_start_spec(s), "@charset "@)
    ||| has_prefix(trim_start_spec(s), "@use "@)
    ||| has_prefix(trim_start_spec(s), "@forward "@)
}

/// What one raw line yields under the CSS cleaner.
pub open spec fn css_line_output(line: Seq<char>, in_bc: bool, min_chars: u32) -> Option<
    Seq<char>,
> {
    let t = trim_spec(c_strip(line, in_bc, false).0);
    if t.len() == 0 {
        Option::None
    } else if css_directive_spec(t) {
        Option::None
    } else if valid_line(t, min_chars) {
        Option::Some(t)
    } else {
        Option::None
    }
}

/// The cleaned lines produced from raw line `i` onward.
pub open spec fn css_clean_from(lines: Seq<Seq<char>>, i: int, in_bc: bool, min_chars: u32) -> Seq<
    (Seq<char>, int),
>
    decreases lines.len() - i,
{
    if i < 0 || i >= lines.len() {
        Seq::empty()
    } else {
        let rest = css_clean_from(lines, i + 1, c_strip(lines[i], in_bc, false).1, min_chars);
        match css_line_output(lines[i], in_bc, min_chars) {
            Option::Some(t) => seq![(t, i + 1)] + rest,
            Option::None => rest,
        }
    }
}

impl CssFileType {
    /// Create a new CSS processor.
    pub fn new(min_chars: u32) -> (r: Self)
        ensures
            r.min_chars == min_chars,
    {
        CssFileType { min_chars }
    }

    /// Whether a line is an import-style at-rule.
    pub fn is_preprocessor_directive(line: &str) -> (r: bool)
        ensures
            r == css_directive_spec(line@),
    {
        let chars = str_chars(line);
        trimmed_starts_with(&chars, "@import ") || trimmed_starts_with(&chars, "@charset ")
            || trimmed_starts_with(&chars, "@use ") || trimmed_starts_with(&chars, "@forward ")
    }

    /// Clean a whole file.
    pub fn get_cleaned_source_lines(&self, lines: &Vec<String>) -> (r: Vec<SourceLine>)
        ensures
            line_models(r@) == css_clean_from(
                lines@.map_values(|s: String| s@),
                0,
                false,
                self.min_chars,
            ),
            lines_wf(r@),
    {
        let ghost all = lines@.map_values(|s: String| s@);
        let mut result: Vec<SourceLine> = Vec::new();
        let mut in_bc = false;
        let mut idx: usize = 0;
        while idx < lines.len()
            invariant
                0 <= idx <= lines@.len(),
                all == lines@.map_values(|s: String| s@),
                all.len() == lines@.len(),
                css_clean_from(all, 0, false, self.min_chars) =~= line_models(result@)
                    + css_clean_from(all, idx as int, in_bc, self.min_chars),
                lines_wf(result@),
            decreases lines@.len() - idx,
        {
            let chars = str_chars(lines[idx].as_str());
            proof {
                assert(all[idx as int] == lines@[idx as int]@);
            }
            let (stripped, bc2) = strip_c_comments(&chars, in_bc, false);
            let trimmed = trim_chars(&stripped);
            let ghost t = trim_spec(c_strip(all[idx as int], in_bc, false).0);
            let ghost prev = line_models(result@);
            if trimmed.len() > 0 {
                let ts = chars_to_string(&trimmed);
                let keep = if Self::is_preprocessor_directive(ts.as_str()) {
                    false
                } else {
                    is_valid_trimmed(&trimmed, &ts, self.min_chars)
                };
                if keep {
                    let l = SourceLine::new(ts, idx + 1);
                    result.push(l);
                    proof {
                        assert(line_models(result@) =~= prev.push((t, idx + 1)));
                        assert(line_models(result@) + css_clean_from(
                            all,
                            idx + 1,
                            bc2,
                            self.min_chars,
                        ) =~= prev + (seq![(t, idx as int + 1)] + css_clean_from(
                            all,
                            idx + 1,
                            bc2,
                            self.min_chars,
                        )));
                    }
                }
            }
            in_bc = bc2;
            idx = idx + 1;
        }
        proof {
            assert(css_clean_from(all, idx as int, in_bc, self.min_chars) =~= Seq::<
                (Seq<char>, int),
            >::empty());
            assert(line_models(result@) + Seq::<(Seq<char>, int)>::empty() =~= line_models(
                result@,
            ));
        }
        result
    }
}

/// Cleaning idempotence for CSS, for kept lines that open no block
/// comment of their own. A kept line can still contain `/*` when a comment
/// ended right before a `*` on the same line; such lines shrink again on a
/// second pass and are left out here.
pub proof fn lemma_cleaning_idempotent(line: Seq<char>, in_bc: bool, min_chars: u32)
    requires
        css_line_output(line, in_bc, min_chars) is Some,
        crate::filetype::common::comment_free(
            css_line_output(line, in_bc, min_chars).unwrap(),
            false,
        ),
    ensures
        css_line_output(css_line_output(line, in_bc, min_chars).unwrap(), false, min_chars)
            == css_line_output(line, in_bc, min_chars),
{
    let stripped = c_strip(line, in_bc, false).0;
    let t = trim_spec(stripped);
    crate::filetype::common::lemma_strip_identity(t, false);
    crate::text::lemma_trim_idempotent(stripped);
}

} // verus!
