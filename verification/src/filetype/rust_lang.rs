//! Rust line cleaning.

use vstd::prelude::*;

verus! {

use crate::filetype::common::{is_valid_trimmed, line_models, lines_wf, valid_line};
use crate::line::SourceLine;
use crate::text::{
    chars_to_string, contains_seq, has_prefix, matches_at, str_chars, trim_chars, trim_spec,
    trim_start_spec,
};

/// Rust source processor: nested `/* */` block comments, `//` line
/// comments, and optional filtering of `use`/`mod`/`extern` lines,
/// attributes, and `fn` signatures.
pub struct RustFileType {
    /// Whether directives, attributes and signatures are dropped.
    pub ignore_preprocessor: bool,
    /// Minimum byte count for a kept line.
    pub min_chars: u32,
}

/// One pass of Rust comment stripping over a line, from position `i`, with
/// the current block-comment nesting depth and the text kept so far.
pub open spec fn rust_strip_from(line: Seq<char>, i: int, depth: int, acc: Seq<char>) -> (
    Seq<char>,
    int,
)
    decreases line.len() - i,
{
    if i < 0 || i >= line.len() {
        (acc, depth)
    } else if depth > 0 {
        if line[i] == '/' && i + 1 < line.len() && line[i + 1] == '*' {
            rust_strip_from(
                line,
                i + 2,
                if depth < u128::MAX {
                    depth + 1
                } else {
                    depth
                },
                acc,
            )
        } else if line[i] == '*' && i + 1 < line.len() && line[i + 1] == '/' {
            rust_strip_from(line, i + 2, depth - 1, acc)
        } else {
            rust_strip_from(line, i + 1, depth, acc)
        }
    } else if line[i] == '/' && i + 1 < line.len() && line[i + 1] == '*' {
        rust_strip_from(line, i + 2, 1, acc)
    } else if line[i] == '/' && i + 1 < line.len() && line[i + 1] == '/' {
        (acc, 0)
    } else {
        rust_strip_from(line, i + 1, depth, acc.push(line[i]))
    }
}

/// Rust comment stripping of a whole line.
pub open spec fn rust_strip(line: Seq<char>, depth: int) -> (Seq<char>, int) {
    rust_strip_from(line, 0, depth, Seq::empty())
}

/// Remove Rust comments from a line, tracking nesting depth. The depth
/// counter saturates at the 128-bit range.
pub fn strip_rust_comments(line: &Vec<char>, depth0: u128) -> (r: (Vec<char>, u128))
    ensures
        (r.0@, r.1 as int) == rust_strip(line@, depth0 as int),
{
    let n = line.len();
    let mut acc: Vec<char> = Vec::new();
    let mut depth = depth0;
    let mut i: usize = 0;
    loop
        invariant
            0 <= i <= n == line@.len(),
            rust_strip(line@, depth0 as int) == rust_strip_from(
                line@,
                i as int,
                depth as int,
                acc@,
            ),
        decreases n - i,
    {
        if i >= n {
            return (acc, depth);
        }
        let c = line[i];
        if depth > 0 {
            if c == '/' && i + 1 < n && line[i + 1] == '*' {
                if depth < u128::MAX {
                    depth = depth + 1;
                }
                i = i + 2;
            } else if c == '*' && i + 1 < n && line[i + 1] == '/' {
                depth = depth - 1;
                i = i + 2;
            } else {
                i = i + 1;
            }
        } else if c == '/' && i + 1 < n && line[i + 1] == '*' {
            depth = 1;
            i = i + 2;
        } else if c == '/' && i + 1 < n && line[i + 1] == '/' {
            return (acc, depth);
        } else {
            acc.push(c);
            i = i + 1;
        }
    }
}

/// A line that is a `use`, `mod` or `extern` item.
pub open spec fn rust_directive_spec(s: Seq<char>) -> bool {
    ||| has_prefix(trim_start_spec(s), "use "@)
    ||| has_prefix(trim_start_spec(s), "mod "@)
    ||| has_prefix(trim_start_spec(s), "extern "@)
    ||| has_prefix(trim_start_spec(s), "pub use "@)
    ||| has_prefix(trim_start_spec(s), "pub mod "@)
}

/// A line that is an attribute.
pub open spec fn rust_attribute_spec(s: Seq<char>) -> bool {
    has_prefix(trim_start_spec(s), "#["@) || has_prefix(trim_start_spec(s), "#!["@)
}

/// A line that starts a function signature: it mentions `fn ` and is not an
/// item declaration without one.
pub open spec fn rust_signature_spec(s: Seq<char>) -> bool {
    let t = trim_start_spec(s);
    if has_prefix(t, "struct "@) || has_prefix(t, "enum "@) || has_prefix(t, "trait "@)
        || has_prefix(t, "type "@) || has_prefix(t, "const "@) || has_prefix(t, "static "@) {
        false
    } else if (has_prefix(t, "pub struct "@) || has_prefix(t, "pub enum "@) || has_prefix(
        t,
        "pub trait "@,
    ) || has_prefix(t, "pub type "@) || has_prefix(t, "pub const "@) || has_prefix(
        t,
        "pub static "@,
    ) || has_prefix(t, "pub("@)) && !contains_seq(t, " fn "@) {
        false
    } else {
        contains_seq(t, "fn "@)
    }
}

/// The paren balance and brace presence of a signature line, skipping
/// string, character and raw-string literals, from position `i`.
pub open spec fn rust_analyze_from(
    s: Seq<char>,
    i: int,
    in_str: bool,
    in_char: bool,
    in_raw: bool,
    bal: int,
    brace: bool,
) -> (int, bool)
    decreases s.len() - i,
{
    if i < 0 || i >= s.len() {
        (bal, brace)
    } else if in_raw {
        if s[i] == '"' {
            rust_analyze_from(s, i + 1, in_str, in_char, false, bal, brace)
        } else {
            rust_analyze_from(s, i + 1, in_str, in_char, true, bal, brace)
        }
    } else if in_str {
        if s[i] == '"' {
            rust_analyze_from(s, i + 1, false, in_char, in_raw, bal, brace)
        } else if s[i] == '\\' {
            rust_analyze_from(
                s,
                if i + 2 <= s.len() {
                    i + 2
                } else {
                    s.len() as int
                },
                true,
                in_char,
                in_raw,
                bal,
                brace,
            )
        } else {
            rust_analyze_from(s, i + 1, true, in_char, in_raw, bal, brace)
        }
    } else if in_char {
        if s[i] == '\'' {
            rust_analyze_from(s, i + 1, in_str, false, in_raw, bal, brace)
        } else if s[i] == '\\' {
            rust_analyze_from(
                s,
                if i + 2 <= s.len() {
                    i + 2
                } else {
                    s.len() as int
                },
                in_str,
                true,
                in_raw,
                bal,
                brace,
            )
        } else {
            rust_analyze_from(s, i + 1, in_str, true, in_raw, bal, brace)
        }
    } else if s[i] == 'r' && i + 1 < s.len() && s[i + 1] == '"' {
        rust_analyze_from(s, i + 2, in_str, in_char, true, bal, brace)
    } else if s[i] == '"' {
        rust_analyze_from(s, i + 1, true, in_char, in_raw, bal, brace)
    } else if s[i] == '\'' {
        rust_analyze_from(s, i + 1, in_str, true, in_raw, bal, brace)
    } else if s[i] == '(' {
        rust_analyze_from(s, i + 1, in_str, in_char, in_raw, bal + 1, brace)
    } else if s[i] == ')' {
        rust_analyze_from(s, i + 1, in_str, in_char, in_raw, bal - 1, brace)
    } else if s[i] == '{' {
        rust_analyze_from(s, i + 1, in_str, in_char, in_raw, bal, true)
    } else if s[i] == '/' && i + 1 < s.len() && s[i + 1] == '/' {
        (bal, brace)
    } else {
        rust_analyze_from(s, i + 1, in_str, in_char, in_raw, bal, brace)
    }
}

/// The paren balance and brace presence of a whole line.
pub open spec fn rust_analyze(s: Seq<char>) -> (int, bool) {
    rust_analyze_from(s, 0, false, false, false, 0, false)
}

impl RustFileType {
    /// Create a new Rust processor.
    pub fn new(ignore_preprocessor: bool, min_chars: u32) -> (r: Self)
        ensures
            r.ignore_preprocessor == ignore_preprocessor,
            r.min_chars == min_chars,
    {
        RustFileType { ignore_preprocessor, min_chars }
    }

    /// Whether a line is a `use`, `mod` or `extern` item.
    pub fn is_preprocessor_directive(line: &str) -> (r: bool)
        ensures
            r == rust_directive_spec(line@),
    {
        let chars = str_chars(line);
        crate::text::trimmed_starts_with(&chars, "use ") || crate::text::trimmed_starts_with(
            &chars,
            "mod ",
        ) || crate::text::trimmed_starts_with(&chars, "extern ")
            || crate::text::trimmed_starts_with(&chars, "pub use ")
            || crate::text::trimmed_starts_with(&chars, "pub mod ")
    }

    /// Whether a line is an attribute.
    pub fn is_attribute(line: &str) -> (r: bool)
        ensures
            r == rust_attribute_spec(line@),
    {
        let chars = str_chars(line);
        crate::text::trimmed_starts_with(&chars, "#[") || crate::text::trimmed_starts_with(
            &chars,
            "#![",
        )
    }

    /// Whether a line starts a function signature.
    pub fn starts_signature(line: &str) -> (r: bool)
        ensures
            r == rust_signature_spec(line@),
    {
        let chars = str_chars(line);
        if crate::text::trimmed_starts_with(&chars, "struct ") || crate::text::trimmed_starts_with(
            &chars,
            "enum ",
        ) || crate::text::trimmed_starts_with(&chars, "trait ")
            || crate::text::trimmed_starts_with(&chars, "type ")
            || crate::text::trimmed_starts_with(&chars, "const ")
            || crate::text::trimmed_starts_with(&chars, "static ") {
            return false;
        }
        let tstart = crate::text::trim_start_chars(&chars);
        if crate::text::trimmed_starts_with(&chars, "pub struct ")
            || crate::text::trimmed_starts_with(&chars, "pub enum ")
            || crate::text::trimmed_starts_with(&chars, "pub trait ")
            || crate::text::trimmed_starts_with(&chars, "pub type ")
            || crate::text::trimmed_starts_with(&chars, "pub const ")
            || crate::text::trimmed_starts_with(&chars, "pub static ")
            || crate::text::trimmed_starts_with(&chars, "pub(") {
            if !crate::text::contains_str(&tstart, " fn ") {
                return false;
            }
        }
        crate::text::contains_str(&tstart, "fn ")
    }

    /// Clean a whole file.
    pub fn get_cleaned_source_lines(&self, lines: &Vec<String>) -> (r: Vec<SourceLine>)
        ensures
            line_models(r@) == rust_clean_from(
                lines@.map_values(|s: String| s@),
                0,
                RustCleanState { depth: 0, in_signature: false, paren_depth: 0 },
                self.ignore_preprocessor,
                self.min_chars,
            ),
            lines_wf(r@),
    {
        let ghost all = lines@.map_values(|s: String| s@);
        let mut result: Vec<SourceLine> = Vec::new();
        let mut depth: u128 = 0;
        let mut in_signature = false;
        let mut paren_depth: i128 = 0;
        let mut idx: usize = 0;
        while idx < lines.len()
            invariant
                0 <= idx <= lines@.len(),
                all == lines@.map_values(|s: String| s@),
                all.len() == lines@.len(),
                rust_clean_from(
                    all,
                    0,
                    RustCleanState { depth: 0, in_signature: false, paren_depth: 0 },
                    self.ignore_preprocessor,
                    self.min_chars,
                ) =~= line_models(result@) + rust_clean_from(
                    all,
                    idx as int,
                    RustCleanState {
                        depth: depth as int,
                        in_signature,
                        paren_depth: paren_depth as int,
                    },
                    self.ignore_preprocessor,
                    self.min_chars,
                ),
                lines_wf(result@),
            decreases lines@.len() - idx,
        {
            let ghost st = RustCleanState {
                depth: depth as int,
                in_signature,
                paren_depth: paren_depth as int,
            };
            let chars = str_chars(lines[idx].as_str());
            proof {
                assert(all[idx as int] == lines@[idx as int]@);
            }
            let (stripped, depth2) = strip_rust_comments(&chars, depth);
            let trimmed = trim_chars(&stripped);
            let ghost t = trim_spec(rust_strip(all[idx as int], st.depth).0);
            let ghost prev = line_models(result@);
            let ghost st2 = rust_line_state(all[idx as int], st, self.ignore_preprocessor);
            let ghost out = rust_line_output(
                all[idx as int],
                st,
                self.ignore_preprocessor,
                self.min_chars,
            );
            if trimmed.len() > 0 {
                let ts = chars_to_string(&trimmed);
                if in_signature {
                    let (bal, brace) = analyze_rust_line(&trimmed);
                    let d2 = sat_add_i128(paren_depth, bal);
                    if d2 <= 0 && brace {
                        in_signature = false;
                        paren_depth = 0;
                    } else {
                        paren_depth = d2;
                    }
                } else if self.ignore_preprocessor && Self::is_attribute(ts.as_str()) {
                    // dropped
                } else if self.ignore_preprocessor && Self::starts_signature(ts.as_str()) {
                    let (bal, brace) = analyze_rust_line(&trimmed);
                    if bal <= 0 && brace {
                        paren_depth = 0;
                    } else {
                        in_signature = true;
                        paren_depth = bal;
                    }
                } else if self.ignore_preprocessor && Self::is_preprocessor_directive(
                    ts.as_str(),
                ) {
                    // dropped
                } else if is_valid_trimmed(&trimmed, &ts, self.min_chars) {
                    let l = SourceLine::new(ts, idx + 1);
                    result.push(l);
                    proof {
                        assert(line_models(result@) =~= prev.push((t, idx + 1)));
                    }
                }
            }
            depth = depth2;
            proof {
                assert(out is Some ==> line_models(result@) =~= prev.push((t, idx + 1)));
                assert(out is None ==> line_models(result@) =~= prev);
                assert(st2 == RustCleanState {
                    depth: depth as int,
                    in_signature,
                    paren_depth: paren_depth as int,
                });
                if out is Some {
                    assert(prev + (seq![(t, idx as int + 1)] + rust_clean_from(
                        all,
                        idx + 1,
                        st2,
                        self.ignore_preprocessor,
                        self.min_chars,
                    )) =~= line_models(result@) + rust_clean_from(
                        all,
                        idx + 1,
                        st2,
                        self.ignore_preprocessor,
                        self.min_chars,
                    ));
                }
            }
            idx = idx + 1;
        }
        proof {
            assert(rust_clean_from(
                all,
                idx as int,
                RustCleanState {
                    depth: depth as int,
                    in_signature,
                    paren_depth: paren_depth as int,
                },
                self.ignore_preprocessor,
                self.min_chars,
            ) =~= Seq::<(Seq<char>, int)>::empty());
            assert(line_models(result@) + Seq::<(Seq<char>, int)>::empty() =~= line_models(
                result@,
            ));
        }
        result
    }
}

/// The cross-line state of the Rust cleaner: comment nesting depth and the
/// multi-line-signature tracker.
pub ghost struct RustCleanState {
    /// Block-comment nesting depth.
    pub depth: int,
    /// Whether we are inside a multi-line `fn` signature.
    pub in_signature: bool,
    /// Unbalanced parens accumulated by the signature so far.
    pub paren_depth: int,
}

/// Saturating addition on 128-bit integers.
pub open spec fn sat_add_spec(a: int, b: int) -> int {
    if a + b > i128::MAX {
        i128::MAX as int
    } else if a + b < i128::MIN {
        i128::MIN as int
    } else {
        a + b
    }
}

/// Add two counters, clamping at the 128-bit range.
pub fn sat_add_i128(a: i128, b: i128) -> (r: i128)
    ensures
        r as int == sat_add_spec(a as int, b as int),
{
    match a.checked_add(b) {
        Some(v) => v,
        None => {
            if b >= 0 {
                i128::MAX
            } else {
                i128::MIN
            }
        },
    }
}

/// The paren balance and brace presence of a line of characters.
pub fn analyze_rust_line(line: &Vec<char>) -> (r: (i128, bool))
    ensures
        (r.0 as int, r.1) == rust_analyze(line@),
        -(line@.len() as int) <= r.0 as int <= line@.len() as int,
{
    let n = line.len();
    let mut bal: i128 = 0;
    let mut brace = false;
    let mut in_str = false;
    let mut in_char = false;
    let mut in_raw = false;
    let mut i: usize = 0;
    loop
        invariant
            0 <= i <= n == line@.len(),
            -(i as int) <= bal as int <= i as int,
            rust_analyze(line@) == rust_analyze_from(
                line@,
                i as int,
                in_str,
                in_char,
                in_raw,
                bal as int,
                brace,
            ),
        decreases n - i,
    {
        if i >= n {
            return (bal, brace);
        }
        let c = line[i];
        if in_raw {
            if c == '"' {
                in_raw = false;
            }
            i = i + 1;
        } else if in_str {
            if c == '"' {
                in_str = false;
                i = i + 1;
            } else if c == '\\' {
                i = if i + 1 < n {
                    i + 2
                } else {
                    n
                };
            } else {
                i = i + 1;
            }
        } else if in_char {
            if c == '\'' {
                in_char = false;
                i = i + 1;
            } else if c == '\\' {
                i = if i + 1 < n {
                    i + 2
                } else {
                    n
                };
            } else {
                i = i + 1;
            }
        } else if c == 'r' && i + 1 < n && line[i + 1] == '"' {
            in_raw = true;
            i = i + 2;
        } else if c == '"' {
            in_str = true;
            i = i + 1;
        } else if c == '\'' {
            in_char = true;
            i = i + 1;
        } else if c == '(' {
            bal = bal + 1;
            i = i + 1;
        } else if c == ')' {
            bal = bal - 1;
            i = i + 1;
        } else if c == '{' {
            brace = true;
            i = i + 1;
        } else if c == '/' && i + 1 < n && line[i + 1] == '/' {
            return (bal, brace);
        } else {
            i = i + 1;
        }
    }
}

/// What one raw line yields under the Rust cleaner, and the state after it.
pub open spec fn rust_line_output(
    line: Seq<char>,
    st: RustCleanState,
    ignore_pre: bool,
    min_chars: u32,
) -> Option<Seq<char>> {
    let t = trim_spec(rust_strip(line, st.depth).0);
    if t.len() == 0 {
        Option::None
    } else if st.in_signature {
        Option::None
    } else if ignore_pre && rust_attribute_spec(t) {
        Option::None
    } else if ignore_pre && rust_signature_spec(t) {
        Option::None
    } else if ignore_pre && rust_directive_spec(t) {
        Option::None
    } else if valid_line(t, min_chars) {
        Option::Some(t)
    } else {
        Option::None
    }
}

/// The cleaner state after one raw line.
pub open spec fn rust_line_state(line: Seq<char>, st: RustCleanState, ignore_pre: bool) -> RustCleanState {
    let stripped = rust_strip(line, st.depth);
    let t = trim_spec(stripped.0);
    let d = stripped.1;
    if t.len() == 0 {
        RustCleanState { depth: d, in_signature: st.in_signature, paren_depth: st.paren_depth }
    } else if st.in_signature {
        let a = rust_analyze(t);
        let d2 = sat_add_spec(st.paren_depth, a.0);
        if d2 <= 0 && a.1 {
            RustCleanState { depth: d, in_signature: false, paren_depth: 0 }
        } else {
            RustCleanState { depth: d, in_signature: true, paren_depth: d2 }
        }
    } else if ignore_pre && rust_attribute_spec(t) {
        RustCleanState { depth: d, in_signature: false, paren_depth: st.paren_depth }
    } else if ignore_pre && rust_signature_spec(t) {
        let a = rust_analyze(t);
        if a.0 <= 0 && a.1 {
            RustCleanState { depth: d, in_signature: false, paren_depth: 0 }
        } else {
            RustCleanState { depth: d, in_signature: true, paren_depth: a.0 }
        }
    } else {
        RustCleanState { depth: d, in_signature: false, paren_depth: st.paren_depth }
    }
}

/// The cleaned lines produced from raw line `i` onward.
pub open spec fn rust_clean_from(
    lines: Seq<Seq<char>>,
    i: int,
    st: RustCleanState,
    ignore_pre: bool,
    min_chars: u32,
) -> Seq<(Seq<char>, int)>
    decreases lines.len() - i,
{
    if i < 0 || i >= lines.len() {
        Seq::empty()
    } else {
        let rest = rust_clean_from(
            lines,
            i + 1,
            rust_line_state(lines[i], st, ignore_pre),
            ignore_pre,
            min_chars,
        );
        match rust_line_output(lines[i], st, ignore_pre, min_chars) {
            Option::Some(t) => seq![(t, i + 1)] + rest,
            Option::None => rest,
        }
    }
}

/// Stripping a comment-free text with the Rust stripper keeps it whole.
proof fn lemma_rust_strip_identity_from(s: Seq<char>, i: int, acc: Seq<char>)
    requires
        crate::filetype::common::comment_free(s, true),
        0 <= i <= s.len(),
    ensures
        rust_strip_from(s, i, 0, acc) == (acc + s.skip(i), 0int),
    decreases s.len() - i,
{
    if i >= s.len() {
        assert(acc + s.skip(i) =~= acc);
    } else {
        if s[i] == '/' && i + 1 < s.len() {
            assert(!(s[i] == '/' && s[i + 1] == '*'));
        }
        lemma_rust_strip_identity_from(s, i + 1, acc.push(s[i]));
        assert(acc.push(s[i]) + s.skip(i + 1) =~= acc + s.skip(i));
    }
}

/// The Rust stripper's output opens no comment: a kept `/` is never
/// followed by `/` or `*`.
proof fn lemma_rust_strip_output_free_from(s: Seq<char>, i: int, depth: int, acc: Seq<char>)
    requires
        0 <= i,
        0 <= depth,
        crate::filetype::common::comment_free(acc, true),
        depth == 0 && acc.len() > 0 && acc.last() == '/' && i < s.len() ==> s[i] != '/' && s[i]
            != '*',
        depth > 0 ==> !(acc.len() > 0 && acc.last() == '/'),
    ensures
        crate::filetype::common::comment_free(rust_strip_from(s, i, depth, acc).0, true),
    decreases s.len() - i,
{
    if i >= s.len() {
    } else if depth > 0 {
        if s[i] == '/' && i + 1 < s.len() && s[i + 1] == '*' {
            lemma_rust_strip_output_free_from(
                s,
                i + 2,
                if depth < u128::MAX {
                    depth + 1
                } else {
                    depth
                },
                acc,
            );
        } else if s[i] == '*' && i + 1 < s.len() && s[i + 1] == '/' {
            lemma_rust_strip_output_free_from(s, i + 2, depth - 1, acc);
        } else {
            lemma_rust_strip_output_free_from(s, i + 1, depth, acc);
        }
    } else if s[i] == '/' && i + 1 < s.len() && s[i + 1] == '*' {
        lemma_rust_strip_output_free_from(s, i + 2, 1, acc);
    } else if s[i] == '/' && i + 1 < s.len() && s[i + 1] == '/' {
    } else {
        let acc2 = acc.push(s[i]);
        assert forall|q: int|
            0 <= q < acc2.len() - 1 implies !((acc2[q] == '/' && #[trigger] acc2[q + 1] == '*') || (
        acc2[q] == '/' && acc2[q + 1] == '/')) by {
            if q < acc.len() - 1 {
                assert(acc2[q] == acc[q] && acc2[q + 1] == acc[q + 1]);
            } else {
                assert(acc2[q + 1] == s[i]);
            }
        }
        lemma_rust_strip_output_free_from(s, i + 1, 0, acc2);
    }
}

/// Cleaning idempotence: a line the Rust cleaner keeps, cleaned again on
/// its own from a fresh state, is kept unchanged.
pub proof fn lemma_cleaning_idempotent(
    line: Seq<char>,
    st: RustCleanState,
    ignore_pre: bool,
    min_chars: u32,
)
    requires
        0 <= st.depth,
        rust_line_output(line, st, ignore_pre, min_chars) is Some,
    ensures
        rust_line_output(
            rust_line_output(line, st, ignore_pre, min_chars).unwrap(),
            RustCleanState { depth: 0, in_signature: false, paren_depth: 0 },
            ignore_pre,
            min_chars,
        ) == rust_line_output(line, st, ignore_pre, min_chars),
{
    let stripped = rust_strip(line, st.depth).0;
    let t = trim_spec(stripped);
    lemma_rust_strip_output_free_from(line, 0, st.depth, Seq::empty());
    crate::text::lemma_trim_is_subrange(stripped);
    let lo = choose|lo: int|
        0 <= lo && lo + t.len() <= stripped.len() && t =~= #[trigger] stripped.subrange(
            lo,
            lo + t.len(),
        );
    crate::filetype::common::lemma_comment_free_subrange(stripped, lo, lo + t.len() as int, true);
    lemma_rust_strip_identity_from(t, 0, Seq::empty());
    assert(Seq::<char>::empty() + t.skip(0) =~= t);
    crate::text::lemma_trim_idempotent(stripped);
}

} // verus!
