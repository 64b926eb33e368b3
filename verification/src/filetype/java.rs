//! Java line cleaning.

use vstd::prelude::*;

verus! {

use crate::filetype::common::{
    c_strip, is_valid_trimmed, line_models, lines_wf, strip_c_comments, valid_line,
};
use crate::line::SourceLine;
use crate::text::{
    chars_eq_str, chars_to_string, contains_char, contains_seq, count_words, cut_at_char,
    first_word, get_first_word, has_char, has_prefix, is_upper, is_upper_char, str_chars,
    take_before_char, trim_chars, trim_spec, trim_start_chars, trim_start_spec, word_count,
};

/// Java source processor: C-style comments, with optional filtering of
/// `package`/`import` lines, annotations, and method signatures.
pub struct JavaFileType {
    /// Whether directives, annotations and signatures are dropped.
    pub ignore_preprocessor: bool,
    /// Minimum byte count for a kept line.
    pub min_chars: u32,
}

/// A line that is a `package` or `import` statement.
pub open spec fn java_directive_spec(s: Seq<char>) -> bool {
    has_prefix(trim_start_spec(s), "package "@) || has_prefix(trim_start_spec(s), "import "@)
}

/// A line that is an annotation.
pub open spec fn java_annotation_spec(s: Seq<char>) -> bool {
    trim_start_spec(s).len() > 0 && trim_start_spec(s)[0] == '@'
}

/// A line that starts a method or constructor signature: it opens a paren,
/// its head is no control keyword, statement starter or method call, and it
/// looks like a declaration.
pub open spec fn java_signature_spec(s: Seq<char>) -> bool {
    let t = trim_start_spec(s);
    let before = take_before_char(t, '(');
    let w = first_word(before);
    if contains_seq(t, "class "@) || contains_seq(t, "interface "@) || contains_seq(t, "enum "@) {
        false
    } else if !contains_char(t, '(') {
        false
    } else if contains_char(before, '.') {
        false
    } else if w == "if"@ || w == "while"@ || w == "for"@ || w == "switch"@ || w == "catch"@ || w
        == "try"@ || w == "else"@ || w == "do"@ || w == "synchronized"@ {
        false
    } else if w == "return"@ || w == "throw"@ || w == "new"@ || w == "super"@ || w == "this"@ {
        false
    } else if contains_seq(t, " = "@) {
        false
    } else if w == "public"@ || w == "private"@ || w == "protected"@ || w == "static"@ || w
        == "final"@ || w == "abstract"@ || w == "native"@ || w == "synchronized"@ || w
        == "default"@ || w == "void"@ {
        true
    } else if word_count(before) >= 2 && ((w.len() > 0 && is_upper(w[0])) || contains_char(
        w,
        '<',
    )) {
        true
    } else {
        false
    }
}

/// The paren balance and brace presence of a signature line, skipping
/// string and character literals and stopping at a line comment, from
/// position `i`.
pub open spec fn java_analyze_from(
    s: Seq<char>,
    i: int,
    in_str: bool,
    in_char: bool,
    bal: int,
    brace: bool,
) -> (int, bool)
    decreases s.len() - i,
{
    if i < 0 || i >= s.len() {
        (bal, brace)
    } else if in_str {
        if s[i] == '"' {
            java_analyze_from(s, i + 1, false, in_char, bal, brace)
        } else if s[i] == '\\' {
            java_analyze_from(
                s,
                if i + 2 <= s.len() {
                    i + 2
                } else {
                    s.len() as int
                },
                true,
                in_char,
                bal,
                brace,
            )
        } else {
            java_analyze_from(s, i + 1, true, in_char, bal, brace)
        }
    } else if in_char {
        if s[i] == '\'' {
            java_analyze_from(s, i + 1, in_str, false, bal, brace)
        } else if s[i] == '\\' {
            java_analyze_from(
                s,
                if i + 2 <= s.len() {
                    i + 2
                } else {
                    s.len() as int
                },
                in_str,
                true,
                bal,
                brace,
            )
        } else {
            java_analyze_from(s, i + 1, in_str, true, bal, brace)
        }
    } else if s[i] == '"' {
        java_analyze_from(s, i + 1, true, in_char, bal, brace)
    } else if s[i] == '\'' {
        java_analyze_from(s, i + 1, in_str, true, bal, brace)
    } else if s[i] == '(' {
        java_analyze_from(s, i + 1, in_str, in_char, bal + 1, brace)
    } else if s[i] == ')' {
        java_analyze_from(s, i + 1, in_str, in_char, bal - 1, brace)
    } else if s[i] == '{' {
        java_analyze_from(s, i + 1, in_str, in_char, bal, true)
    } else if s[i] == '/' && i + 1 < s.len() && s[i + 1] == '/' {
        (bal, brace)
    } else {
        java_analyze_from(s, i + 1, in_str, in_char, bal, brace)
    }
}

/// The paren balance and brace presence of a whole line.
pub open spec fn java_analyze(s: Seq<char>) -> (int, bool) {
    java_analyze_from(s, 0, false, false, 0, false)
}

/// Count parens and detect an opening brace in a line of characters.
pub fn analyze_java_line(line: &Vec<char>) -> (r: (i128, bool))
    ensures
        (r.0 as int, r.1) == java_analyze(line@),
        -(line@.len() as int) <= r.0 as int <= line@.len() as int,
{
    let n = line.len();
    let mut bal: i128 = 0;
    let mut brace = false;
    let mut in_str = false;
    let mut in_char = false;
    let mut i: usize = 0;
    loop
        invariant
            0 <= i <= n == line@.len(),
            -(i as int) <= bal as int <= i as int,
            java_analyze(line@) == java_analyze_from(
                line@,
                i as int,
                in_str,
                in_char,
                bal as int,
                brace,
            ),
        decreases n - i,
    {
        if i >= n {
            return (bal, brace);
        }
        let c = line[i];
        if in_str {
            if c == '"' {
                in_str = false;
                i = i + 1;
            } else if c == '\\' {
                i = if i + 1 < n {
                    i + 2
                } else {
                    n
                };
            } else {
                i = i + 1;
            }
        } else if in_char {
            if c == '\'' {
                in_char = false;
                i = i + 1;
            } else if c == '\\' {
                i = if i + 1 < n {
                    i + 2
                } else {
                    n
                };
            } else {
                i = i + 1;
            }
        } else if c == '"' {
            in_str = true;
            i = i + 1;
        } else if c == '\'' {
            in_char = true;
            i = i + 1;
        } else if c == '(' {
            bal = bal + 1;
            i = i + 1;
        } else if c == ')' {
            bal = bal - 1;
            i = i + 1;
        } else if c == '{' {
            brace = true;
            i = i + 1;
        } else if c == '/' && i + 1 < n && line[i + 1] == '/' {
            return (bal, brace);
        } else {
            i = i + 1;
        }
    }
}

/// The cross-line state of the Java cleaner.
pub ghost struct JavaCleanState {
    /// Whether we are inside a block comment.
    pub in_bc: bool,
    /// Whether we are inside a multi-line method signature.
    pub in_signature: bool,
    /// Unbalanced parens accumulated by the signature so far.
    pub paren_depth: int,
}

/// What one raw line yields under the Java cleaner.
pub open spec fn java_line_output(
    line: Seq<char>,
    st: JavaCleanState,
    ignore_pre: bool,
    min_chars: u32,
) -> Option<Seq<char>> {
    let t = trim_spec(c_strip(line, st.in_bc, true).0);
    if t.len() == 0 {
        Option::None
    } else if st.in_signature {
        Option::None
    } else if ignore_pre && java_annotation_spec(t) {
        Option::None
    } else if ignore_pre && java_signature_spec(t) {
        Option::None
    } else if ignore_pre && java_directive_spec(t) {
        Option::None
    } else if valid_line(t, min_chars) {
        Option::Some(t)
    } else {
        Option::None
    }
}

/// The cleaner state after one raw line.
pub open spec fn java_line_state(line: Seq<char>, st: JavaCleanState, ignore_pre: bool) -> JavaCleanState {
    let stripped = c_strip(line, st.in_bc, true);
    let t = trim_spec(stripped.0);
    let bc = stripped.1;
    if t.len() == 0 {
        JavaCleanState { in_bc: bc, in_signature: st.in_signature, paren_depth: st.paren_depth }
    } else if st.in_signature {
        let a = java_analyze(t);
        let d2 = crate::filetype::rust_lang::sat_add_spec(st.paren_depth, a.0);
        if d2 <= 0 && a.1 {
            JavaCleanState { in_bc: bc, in_signature: false, paren_depth: 0 }
        } else {
            JavaCleanState { in_bc: bc, in_signature: true, paren_depth: d2 }
        }
    } else if ignore_pre && java_annotation_spec(t) {
        JavaCleanState { in_bc: bc, in_signature: false, paren_depth: st.paren_depth }
    } else if ignore_pre && java_signature_spec(t) {
        let a = java_analyze(t);
        if a.0 <= 0 && a.1 {
            JavaCleanState { in_bc: bc, in_signature: false, paren_depth: 0 }
        } else {
            JavaCleanState { in_bc: bc, in_signature: true, paren_depth: a.0 }
        }
    } else {
        JavaCleanState { in_bc: bc, in_signature: false, paren_depth: st.paren_depth }
    }
}

/// The cleaned lines produced from raw line `i` onward.
pub open spec fn java_clean_from(
    lines: Seq<Seq<char>>,
    i: int,
    st: JavaCleanState,
    ignore_pre: bool,
    min_chars: u32,
) -> Seq<(Seq<char>, int)>
    decreases lines.len() - i,
{
    if i < 0 || i >= lines.len() {
        Seq::empty()
    } else {
        let rest = java_clean_from(
            lines,
            i + 1,
            java_line_state(lines[i], st, ignore_pre),
            ignore_pre,
            min_chars,
        );
        match java_line_output(lines[i], st, ignore_pre, min_chars) {
            Option::Some(t) => seq![(t, i + 1)] + rest,
            Option::None => rest,
        }
    }
}

impl JavaFileType {
    /// Create a new Java processor.
    pub fn new(ignore_preprocessor: bool, min_chars: u32) -> (r: Self)
        ensures
            r.ignore_preprocessor == ignore_preprocessor,
            r.min_chars == min_chars,
    {
        JavaFileType { ignore_preprocessor, min_chars }
    }

    /// Whether a line is a `package` or `import` statement.
    pub fn is_preprocessor_directive(line: &str) -> (r: bool)
        ensures
            r == java_directive_spec(line@),
    {
        let chars = str_chars(line);
        crate::text::trimmed_starts_with(&chars, "package ") || crate::text::trimmed_starts_with(
            &chars,
            "import ",
        )
    }

    /// Whether a line is an annotation.
    pub fn is_annotation(line: &str) -> (r: bool)
        ensures
            r == java_annotation_spec(line@),
    {
        let chars = str_chars(line);
        crate::text::trimmed_starts_char(&chars, '@')
    }

    /// Whether a line starts a method or constructor signature.
    pub fn starts_signature(line: &str) -> (r: bool)
        ensures
            r == java_signature_spec(line@),
    {
        let chars = str_chars(line);
        let t = trim_start_chars(&chars);
        if crate::text::contains_str(&t, "class ") || crate::text::contains_str(&t, "interface ")
            || crate::text::contains_str(&t, "enum ") {
            return false;
        }
        if !has_char(&t, '(') {
            return false;
        }
        let before = cut_at_char(&t, '(');
        if has_char(&before, '.') {
            return false;
        }
        let w = get_first_word(&before);
        if chars_eq_str(&w, "if") || chars_eq_str(&w, "while") || chars_eq_str(&w, "for")
            || chars_eq_str(&w, "switch") || chars_eq_str(&w, "catch") || chars_eq_str(&w, "try")
            || chars_eq_str(&w, "else") || chars_eq_str(&w, "do") || chars_eq_str(
            &w,
            "synchronized",
        ) {
            return false;
        }
        if chars_eq_str(&w, "return") || chars_eq_str(&w, "throw") || chars_eq_str(&w, "new")
            || chars_eq_str(&w, "super") || chars_eq_str(&w, "this") {
            return false;
        }
        if crate::text::contains_str(&t, " = ") {
            return false;
        }
        if chars_eq_str(&w, "public") || chars_eq_str(&w, "private") || chars_eq_str(
            &w,
            "protected",
        ) || chars_eq_str(&w, "static") || chars_eq_str(&w, "final") || chars_eq_str(
            &w,
            "abstract",
        ) || chars_eq_str(&w, "native") || chars_eq_str(&w, "synchronized") || chars_eq_str(
            &w,
            "default",
        ) || chars_eq_str(&w, "void") {
            return true;
        }
        if count_words(&before) >= 2 {
            let upper = if w.len() > 0 {
                is_upper_char(w[0])
            } else {
                false
            };
            if upper || has_char(&w, '<') {
                return true;
            }
        }
        false
    }

    /// Clean a whole file.
    pub fn get_cleaned_source_lines(&self, lines: &Vec<String>) -> (r: Vec<SourceLine>)
        ensures
            line_models(r@) == java_clean_from(
                lines@.map_values(|s: String| s@),
                0,
                JavaCleanState { in_bc: false, in_signature: false, paren_depth: 0 },
                self.ignore_preprocessor,
                self.min_chars,
            ),
            lines_wf(r@),
    {
        let ghost all = lines@.map_values(|s: String| s@);
        let mut result: Vec<SourceLine> = Vec::new();
        let mut in_bc = false;
        let mut in_signature = false;
        let mut paren_depth: i128 = 0;
        let mut idx: usize = 0;
        while idx < lines.len()
            invariant
                0 <= idx <= lines@.len(),
                all == lines@.map_values(|s: String| s@),
                all.len() == lines@.len(),
                java_clean_from(
                    all,
                    0,
                    JavaCleanState { in_bc: false, in_signature: false, paren_depth: 0 },
                    self.ignore_preprocessor,
                    self.min_chars,
                ) =~= line_models(result@) + java_clean_from(
                    all,
                    idx as int,
                    JavaCleanState { in_bc, in_signature, paren_depth: paren_depth as int },
                    self.ignore_preprocessor,
                    self.min_chars,
                ),
                lines_wf(result@),
            decreases lines@.len() - idx,
        {
            let ghost st = JavaCleanState {
                in_bc,
                in_signature,
                paren_depth: paren_depth as int,
            };
            let chars = str_chars(lines[idx].as_str());
            proof {
                assert(all[idx as int] == lines@[idx as int]@);
            }
            let (stripped, bc2) = strip_c_comments(&chars, in_bc, true);
            let trimmed = trim_chars(&stripped);
            let ghost t = trim_spec(c_strip(all[idx as int], st.in_bc, true).0);
            let ghost prev = line_models(result@);
            let ghost st2 = java_line_state(all[idx as int], st, self.ignore_preprocessor);
            let ghost out = java_line_output(
                all[idx as int],
                st,
                self.ignore_preprocessor,
                self.min_chars,
            );
            in_bc = bc2;
            if trimmed.len() > 0 {
                let ts = chars_to_string(&trimmed);
                if in_signature {
                    let (bal, brace) = analyze_java_line(&trimmed);
                    let d2 = crate::filetype::rust_lang::sat_add_i128(paren_depth, bal);
                    if d2 <= 0 && brace {
                        in_signature = false;
                        paren_depth = 0;
                    } else {
                        paren_depth = d2;
                    }
                } else if self.ignore_preprocessor && Self::is_annotation(ts.as_str()) {
                    // dropped
                } else if self.ignore_preprocessor && Self::starts_signature(ts.as_str()) {
                    let (bal, brace) = analyze_java_line(&trimmed);
                    if bal <= 0 && brace {
                        paren_depth = 0;
                    } else {
                        in_signature = true;
                        paren_depth = bal;
                    }
                } else if self.ignore_preprocessor && Self::is_preprocessor_directive(
                    ts.as_str(),
                ) {
                    // dropped
                } else if is_valid_trimmed(&trimmed, &ts, self.min_chars) {
                    let l = SourceLine::new(ts, idx + 1);
                    result.push(l);
                    proof {
                        assert(line_models(result@) =~= prev.push((t, idx + 1)));
                    }
                }
            }
            proof {
                assert(out is Some ==> line_models(result@) =~= prev.push((t, idx + 1)));
                assert(out is None ==> line_models(result@) =~= prev);
                assert(st2 == JavaCleanState {
                    in_bc,
                    in_signature,
                    paren_depth: paren_depth as int,
                });
                if out is Some {
                    assert(prev + (seq![(t, idx as int + 1)] + java_clean_from(
                        all,
                        idx + 1,
                        st2,
                        self.ignore_preprocessor,
                        self.min_chars,
                    )) =~= line_models(result@) + java_clean_from(
                        all,
                        idx + 1,
                        st2,
                        self.ignore_preprocessor,
                        self.min_chars,
                    ));
                }
            }
            idx = idx + 1;
        }
        proof {
            assert(java_clean_from(
                all,
                idx as int,
                JavaCleanState { in_bc, in_signature, paren_depth: paren_depth as int },
                self.ignore_preprocessor,
                self.min_chars,
            ) =~= Seq::<(Seq<char>, int)>::empty());
            assert(line_models(result@) + Seq::<(Seq<char>, int)>::empty() =~= line_models(
                result@,
            ));
        }
        result
    }
}

/// Cleaning idempotence: a line the Java cleaner keeps, cleaned again on
/// its own from a fresh state, is kept unchanged.
pub proof fn lemma_cleaning_idempotent(
    line: Seq<char>,
    st: JavaCleanState,
    ignore_pre: bool,
    min_chars: u32,
)
    requires
        java_line_output(line, st, ignore_pre, min_chars) is Some,
    ensures
        java_line_output(
            java_line_output(line, st, ignore_pre, min_chars).unwrap(),
            JavaCleanState { in_bc: false, in_signature: false, paren_depth: 0 },
            ignore_pre,
            min_chars,
        ) == java_line_output(line, st, ignore_pre, min_chars),
{
    crate::filetype::common::lemma_stripped_trimmed_fixed(line, st.in_bc);
}

} // verus!
