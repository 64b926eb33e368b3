//! HTML line cleaning.

use vstd::prelude::*;

verus! {

use vstd::string::{StrSliceExecFns, StringSliceAdditionalSpecFns};
use crate::filetype::common::{is_valid_trimmed, line_models, lines_wf, valid_line};
use crate::line::SourceLine;
use crate::text::{chars_to_string, trim_chars, trim_spec};

/// HTML source processor: `<!-- -->` comments carried across lines. It scans
/// the raw bytes of each line and keeps each non-comment byte as one
/// character.
pub struct HtmlFileType {
    /// Minimum byte count for a kept line.
    pub min_chars: u32,
}

/// One pass of HTML comment stripping over a line's bytes, from position
/// `i`, carrying the comment flag and the bytes kept so far (each as one
/// character).
pub open spec fn html_strip_from(bytes: Seq<u8>, i: int, in_c: bool, acc: Seq<char>) -> (
    Seq<char>,
    bool,
)
    decreases bytes.len() - i,
{
    if i < 0 || i >= bytes.len() {
        (acc, in_c)
    } else if in_c {
        if i + 2 < bytes.len() && bytes[i] == 45 && bytes[i + 1] == 45 && bytes[i + 2] == 62 {
            html_strip_from(bytes, i + 3, false, acc)
        } else {
            html_strip_from(bytes, i + 1, true, acc)
        }
    } else if i + 3 < bytes.len() && bytes[i] == 60 && bytes[i + 1] == 33 && bytes[i + 2] == 45
        && bytes[i + 3] == 45 {
        html_strip_from(bytes, i + 4, true, acc)
    } else {
        html_strip_from(bytes, i + 1, in_c, acc.push(bytes[i] as char))
    }
}

/// HTML comment stripping of a whole line of bytes.
pub open spec fn html_strip(bytes: Seq<u8>, in_c: bool) -> (Seq<char>, bool) {
    html_strip_from(bytes, 0, in_c, Seq::empty())
}

/// Remove HTML comments from a line's bytes.
pub fn strip_html_comments(bytes: &Vec<u8>, in_c0: bool) -> (r: (Vec<char>, bool))
    ensures
        (r.0@, r.1) == html_strip(bytes@, in_c0),
{
    let n = bytes.len();
    let mut acc: Vec<char> = Vec::new();
    let mut in_c = in_c0;
    let mut i: usize = 0;
    loop
        invariant
            0 <= i <= n == bytes@.len(),
            html_strip(bytes@, in_c0) == html_strip_from(bytes@, i as int, in_c, acc@),
        decreases n - i,
    {
        if i >= n {
            return (acc, in_c);
        }
        if in_c {
            if n - i > 2 && bytes[i] == 45 && bytes[i + 1] == 45 && bytes[i + 2] == 62 {
                in_c = false;
                i = i + 3;
            } else {
                i = i + 1;
            }
        } else if n - i > 3 && bytes[i] == 60 && bytes[i + 1] == 33 && bytes[i + 2] == 45 && bytes[i
            + 3] == 45 {
            in_c = true;
            i = i + 4;
        } else {
            acc.push(bytes[i] as char);
            i = i + 1;
        }
    }
}

/// What one raw line yields under the HTML cleaner.
pub open spec fn html_line_output(bytes: Seq<u8>, in_c: bool, min_chars: u32) -> Option<
    Seq<char>,
> {
    let t = trim_spec(html_strip(bytes, in_c).0);
    if t.len() == 0 {
        Option::None
    } else if valid_line(t, min_chars) {
        Option::Some(t)
    } else {
        Option::None
    }
}

/// The cleaned lines produced from raw line `i` onward, over each line's
/// bytes.
pub open spec fn html_clean_from(lines: Seq<Seq<u8>>, i: int, in_c: bool, min_chars: u32) -> Seq<
    (Seq<char>, int),
>
    decreases lines.len() - i,
{
    if i < 0 || i >= lines.len() {
        Seq::empty()
    } else {
        let rest = html_clean_from(lines, i + 1, html_strip(lines[i], in_c).1, min_chars);
        match html_line_output(lines[i], in_c, min_chars) {
            Option::Some(t) => seq![(t, i + 1)] + rest,
            Option::None => rest,
        }
    }
}

impl HtmlFileType {
    /// Create a new HTML processor.
    pub fn new(min_chars: u32) -> (r: Self)
        ensures
            r.min_chars == min_chars,
    {
        HtmlFileType { min_chars }
    }

    /// Clean a whole file.
    pub fn get_cleaned_source_lines(&self, lines: &Vec<String>) -> (r: Vec<SourceLine>)
        ensures
            line_models(r@) == html_clean_from(
                lines@.map_values(|s: String| vstd::utf8::encode_utf8(s@)),
                0,
                false,
                self.min_chars,
            ),
            lines_wf(r@),
    {
        let ghost all = lines@.map_values(|s: String| vstd::utf8::encode_utf8(s@));
        let mut result: Vec<SourceLine> = Vec::new();
        let mut in_c = false;
        let mut idx: usize = 0;
        while idx < lines.len()
            invariant
                0 <= idx <= lines@.len(),
                all == lines@.map_values(|s: String| vstd::utf8::encode_utf8(s@)),
                all.len() == lines@.len(),
                html_clean_from(all, 0, false, self.min_chars) =~= line_models(result@)
                    + html_clean_from(all, idx as int, in_c, self.min_chars),
                lines_wf(result@),
            decreases lines@.len() - idx,
        {
            let bytes = lines[idx].as_str().as_bytes_vec();
            proof {
                assert(all[idx as int] == vstd::utf8::encode_utf8(lines@[idx as int]@));
            }
            let (stripped, c2) = strip_html_comments(&bytes, in_c);
            let trimmed = trim_chars(&stripped);
            let ghost t = trim_spec(html_strip(all[idx as int], in_c).0);
            let ghost prev = line_models(result@);
            if trimmed.len() > 0 {
                let ts = chars_to_string(&trimmed);
                if is_valid_trimmed(&trimmed, &ts, self.min_chars) {
                    let l = SourceLine::new(ts, idx + 1);
                    result.push(l);
                    proof {
                        assert(line_models(result@) =~= prev.push((t, idx + 1)));
                        assert(line_models(result@) + html_clean_from(
                            all,
                            idx + 1,
                            c2,
                            self.min_chars,
                        ) =~= prev + (seq![(t, idx as int + 1)] + html_clean_from(
                            all,
                            idx + 1,
                            c2,
                            self.min_chars,
                        )));
                    }
                }
            }
            in_c = c2;
            idx = idx + 1;
        }
        proof {
            assert(html_clean_from(all, idx as int, in_c, self.min_chars) =~= Seq::<
                (Seq<char>, int),
            >::empty());
            assert(line_models(result@) + Seq::<(Seq<char>, int)>::empty() =~= line_models(
                result@,
            ));
        }
        result
    }
}

/// Bytes read back as one character each.
pub open spec fn bytes_as_chars(b: Seq<u8>) -> Seq<char> {
    b.map_values(|x: u8| x as char)
}

/// A byte text that opens no comment.
pub open spec fn html_open_free(b: Seq<u8>) -> bool {
    forall|i: int|
        0 <= i < b.len() - 3 ==> !(b[i] == 60 && #[trigger] b[i + 1] == 33 && b[i + 2] == 45 && b[i
            + 3] == 45)
}

/// Stripping a byte text that opens no comment keeps every byte.
proof fn lemma_html_strip_identity_from(b: Seq<u8>, i: int, acc: Seq<char>)
    requires
        html_open_free(b),
        0 <= i <= b.len(),
    ensures
        html_strip_from(b, i, false, acc) == (acc + bytes_as_chars(b.skip(i)), false),
    decreases b.len() - i,
{
    if i >= b.len() {
        assert(acc + bytes_as_chars(b.skip(i)) =~= acc);
    } else {
        if i + 3 < b.len() {
            assert(!(b[i] == 60 && b[i + 1] == 33 && b[i + 2] == 45 && b[i + 3] == 45));
        }
        lemma_html_strip_identity_from(b, i + 1, acc.push(b[i] as char));
        assert(acc.push(b[i] as char) + bytes_as_chars(b.skip(i + 1)) =~= acc + bytes_as_chars(
            b.skip(i),
        ));
    }
}

/// Cleaning idempotence for HTML, for kept lines of plain ASCII that hold
/// no comment opener of their own. A kept line can still contain `<!--`
/// when a comment ended right before `!--` on the same line, and a kept
/// line with bytes above ASCII reads back as different bytes; both kinds
/// of line are left out here.
pub proof fn lemma_cleaning_idempotent(bytes: Seq<u8>, in_c: bool, min_chars: u32)
    requires
        html_line_output(bytes, in_c, min_chars) is Some,
        vstd::utf8::is_ascii_chars(html_line_output(bytes, in_c, min_chars).unwrap()),
        html_open_free(
            vstd::utf8::encode_utf8(html_line_output(bytes, in_c, min_chars).unwrap()),
        ),
    ensures
        html_line_output(
            vstd::utf8::encode_utf8(html_line_output(bytes, in_c, min_chars).unwrap()),
            false,
            min_chars,
        ) == html_line_output(bytes, in_c, min_chars),
{
    let t = html_line_output(bytes, in_c, min_chars).unwrap();
    let tb = vstd::utf8::encode_utf8(t);
    vstd::utf8::is_ascii_chars_encode_utf8(t);
    assert(tb =~= Seq::new(t.len(), |i: int| t[i] as u8));
    lemma_html_strip_identity_from(tb, 0, Seq::empty());
    assert(tb.skip(0) =~= tb);
    assert(Seq::<char>::empty() + bytes_as_chars(tb) =~= bytes_as_chars(tb));
    assert forall|k: int| 0 <= k < t.len() implies bytes_as_chars(tb)[k] == t[k] by {
        assert(tb[k] == t[k] as u8);
        assert((t[k] as u32) < 128);
        vstd::utf8::char_u32_cast(t[k], t[k] as u32);
    }
    assert(bytes_as_chars(tb) =~= t);
    assert(html_strip(tb, false) == (t, false));
    let stripped = html_strip(bytes, in_c).0;
    crate::text::lemma_trim_idempotent(stripped);
    assert(trim_spec(t) == t);
}

} // verus!
