//! VB.NET line cleaning.

use vstd::prelude::*;

verus! {

use crate::filetype::common::{is_valid_trimmed, line_models, lines_wf, valid_line};
use crate::line::SourceLine;
use crate::text::{
    chars_to_string, cut_at_char, has_prefix, str_chars, take_before_char, trim_chars, trim_spec,
    trim_start_spec, trimmed_first_is, trimmed_starts_with,
};

/// VB.NET source processor: `'` line comments, optional `Imports`/`#`
/// filtering.
pub struct VbFileType {
    /// Whether directives are dropped.
    pub ignore_preprocessor: bool,
    /// Minimum byte count for a kept line.
    pub min_chars: u32,
}

/// A line that is a VB directive.
pub open spec fn vb_directive_spec(s: Seq<char>) -> bool {
    has_prefix(trim_start_spec(s), "Imports "@) || trimmed_first_is(s, '#')
}

/// What one raw line yields under the VB cleaner.
pub open spec fn vb_line_output(line: Seq<char>, ignore_pre: bool, min_chars: u32) -> Option<
    Seq<char>,
> {
    let t = trim_spec(take_before_char(line, '\''));
    if t.len() == 0 {
        Option::None
    } else if ignore_pre && vb_directive_spec(t) {
        Option::None
    } else if valid_line(t, min_chars) {
        Option::Some(t)
    } else {
        Option::None
    }
}

/// The cleaned lines produced from raw line `i` onward.
pub open spec fn vb_clean_from(
    lines: Seq<Seq<char>>,
    i: int,
    ignore_pre: bool,
    min_chars: u32,
) -> Seq<(Seq<char>, int)>
    decreases lines.len() - i,
{
    if i < 0 || i >= lines.len() {
        Seq::empty()
    } else {
        let rest = vb_clean_from(lines, i + 1, ignore_pre, min_chars);
        match vb_line_output(lines[i], ignore_pre, min_chars) {
            Option::Some(t) => seq![(t, i + 1)] + rest,
            Option::None => rest,
        }
    }
}

impl VbFileType {
    /// Create a new VB.NET processor.
    pub fn new(ignore_preprocessor: bool, min_chars: u32) -> (r: Self)
        ensures
            r.ignore_preprocessor == ignore_preprocessor,
            r.min_chars == min_chars,
    {
        VbFileType { ignore_preprocessor, min_chars }
    }

    /// Whether a line is a VB directive.
    pub fn is_preprocessor_directive(line: &str) -> (r: bool)
        ensures
            r == vb_directive_spec(line@),
    {
        let chars = str_chars(line);
        trimmed_starts_with(&chars, "Imports ") || crate::text::trimmed_starts_char(&chars, '#')
    }

    /// The prefix of a line before its `'` comment.
    pub fn remove_comment(line: &str) -> (r: String)
        ensures
            r@ == take_before_char(line@, '\''),
    {
        let chars = str_chars(line);
        let cut = cut_at_char(&chars, '\'');
        chars_to_string(&cut)
    }

    /// Clean a whole file.
    pub fn get_cleaned_source_lines(&self, lines: &Vec<String>) -> (r: Vec<SourceLine>)
        ensures
            line_models(r@) == vb_clean_from(
                lines@.map_values(|s: String| s@),
                0,
                self.ignore_preprocessor,
                self.min_chars,
            ),
            lines_wf(r@),
    {
        let ghost all = lines@.map_values(|s: String| s@);
        let mut result: Vec<SourceLine> = Vec::new();
        let mut idx: usize = 0;
        while idx < lines.len()
            invariant
                0 <= idx <= lines@.len(),
                all == lines@.map_values(|s: String| s@),
                all.len() == lines@.len(),
                vb_clean_from(all, 0, self.ignore_preprocessor, self.min_chars) =~= line_models(
                    result@,
                ) + vb_clean_from(all, idx as int, self.ignore_preprocessor, self.min_chars),
                lines_wf(result@),
            decreases lines@.len() - idx,
        {
            let chars = str_chars(lines[idx].as_str());
            proof {
                assert(all[idx as int] == lines@[idx as int]@);
            }
            let cut = cut_at_char(&chars, '\'');
            let trimmed = trim_chars(&cut);
            let ghost t = trim_spec(take_before_char(all[idx as int], '\''));
            let ghost prev = line_models(result@);
            if trimmed.len() > 0 {
                let ts = chars_to_string(&trimmed);
                let keep = if self.ignore_preprocessor && Self::is_preprocessor_directive(
                    ts.as_str(),
                ) {
                    false
                } else {
                    is_valid_trimmed(&trimmed, &ts, self.min_chars)
                };
                if keep {
                    let l = SourceLine::new(ts, idx + 1);
                    result.push(l);
                    proof {
                        assert(line_models(result@) =~= prev.push((t, idx + 1)));
                        assert(line_models(result@) + vb_clean_from(
                            all,
                            idx + 1,
                            self.ignore_preprocessor,
                            self.min_chars,
                        ) =~= prev + (seq![(t, idx as int + 1)] + vb_clean_from(
                            all,
                            idx + 1,
                            self.ignore_preprocessor,
                            self.min_chars,
                        )));
                    }
                }
            }
            idx = idx + 1;
        }
        proof {
            assert(vb_clean_from(
                all,
                idx as int,
                self.ignore_preprocessor,
                self.min_chars,
            ) =~= Seq::<(Seq<char>, int)>::empty());
            assert(line_models(result@) + Seq::<(Seq<char>, int)>::empty() =~= line_models(
                result@,
            ));
        }
        result
    }
}

/// Cleaning idempotence: a line the VB cleaner keeps, cleaned again on its
/// own, is kept unchanged.
pub proof fn lemma_cleaning_idempotent(line: Seq<char>, ignore_pre: bool, min_chars: u32)
    requires
        vb_line_output(line, ignore_pre, min_chars) is Some,
    ensures
        vb_line_output(vb_line_output(line, ignore_pre, min_chars).unwrap(), ignore_pre, min_chars)
            == vb_line_output(line, ignore_pre, min_chars),
{
    let cut = take_before_char(line, '\'');
    let t = trim_spec(cut);
    crate::text::lemma_take_before_free(line, '\'');
    crate::text::lemma_trim_is_subrange(cut);
    let lo = choose|lo: int|
        0 <= lo && lo + t.len() <= cut.len() && t =~= #[trigger] cut.subrange(lo, lo + t.len());
    assert forall|j: int| 0 <= j < t.len() implies t[j] != '\'' by {
        assert(t[j] == cut[lo + j]);
    }
    crate::text::lemma_take_before_char_none(t, '\'');
    crate::text::lemma_trim_idempotent(cut);
}

} // verus!
