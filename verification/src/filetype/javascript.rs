//! JavaScript and TypeScript line cleaning.

use vstd::prelude::*;

verus! {

use crate::filetype::common::{
    c_strip, is_valid_trimmed, line_models, lines_wf, strip_c_comments, valid_line,
};
use crate::line::SourceLine;
use crate::text::{
    chars_eq_str, chars_to_string, contains_char, contains_seq, count_words, cut_at_char,
    first_word, get_first_word, has_char, has_prefix, str_chars, take_before_char, trim_chars,
    trim_spec, trim_start_chars, trim_start_spec, word_count,
};

/// JavaScript/TypeScript source processor: C-style comments, with
/// filtering of imports and exports, decorators, and function or method
/// signatures.
pub struct JavaScriptFileType {
    /// Minimum byte count for a kept line.
    pub min_chars: u32,
}

/// A line that is an import-style statement.
pub open spec fn js_directive_spec(s: Seq<char>) -> bool {
    ||| has_prefix(trim_start_spec(s), "import "@)
    ||| has_prefix(trim_start_spec(s), "export "@)
    ||| has_prefix(trim_start_spec(s), "require("@)
    ||| (has_prefix(trim_start_spec(s), "const "@) && contains_seq(trim_start_spec(s), "require("@))
}

/// A line that is a decorator.
pub open spec fn js_decorator_spec(s: Seq<char>) -> bool {
    trim_start_spec(s).len() > 0 && trim_start_spec(s)[0] == '@'
}

/// A line that starts a function or method signature.
pub open spec fn js_signature_spec(s: Seq<char>) -> bool {
    let t = trim_start_spec(s);
    let before = take_before_char(t, '(');
    let w = first_word(before);
    let wc = word_count(before);
    if has_prefix(t, "class "@) || has_prefix(t, "interface "@) || has_prefix(t, "type "@)
        || has_prefix(t, "enum "@) {
        false
    } else if has_prefix(t, "function "@) || has_prefix(t, "async function "@) {
        true
    } else if !contains_char(t, '(') {
        false
    } else if contains_char(before, '.') {
        false
    } else if w == "if"@ || w == "while"@ || w == "for"@ || w == "switch"@ || w == "catch"@ || w
        == "with"@ {
        false
    } else if w == "return"@ || w == "throw"@ || w == "new"@ || w == "await"@ || w == "yield"@
        || w == "typeof"@ || w == "delete"@ {
        false
    } else if has_prefix(t, "const "@) || has_prefix(t, "let "@) || has_prefix(t, "var "@) {
        false
    } else if w == "public"@ || w == "private"@ || w == "protected"@ || w == "static"@ || w
        == "readonly"@ || w == "abstract"@ || w == "override"@ || w == "async"@ {
        true
    } else if (wc == 1 || (wc == 2 && w == "async"@)) && (contains_char(t, '{') || contains_seq(
        t,
        "):"@,
    ) || contains_seq(t, "): "@) || (t.len() > 0 && t.last() == '(')) {
        true
    } else if wc != 0 && (contains_seq(t, "): "@) || contains_seq(t, "):"@)) {
        true
    } else {
        false
    }
}

/// The paren balance, brace presence and arrow presence of a signature
/// line, skipping string and template literals, from position `i`.
pub open spec fn js_analyze_from(
    s: Seq<char>,
    i: int,
    in_str: bool,
    sc: char,
    in_tmpl: bool,
    bal: int,
    brace: bool,
    arrow: bool,
) -> (int, bool, bool)
    decreases s.len() - i,
{
    if i < 0 || i >= s.len() {
        (bal, brace, arrow)
    } else if in_tmpl {
        if s[i] == '`' {
            js_analyze_from(s, i + 1, in_str, sc, false, bal, brace, arrow)
        } else {
            js_analyze_from(s, i + 1, in_str, sc, true, bal, brace, arrow)
        }
    } else if in_str {
        if s[i] == sc {
            js_analyze_from(s, i + 1, false, sc, in_tmpl, bal, brace, arrow)
        } else if s[i] == '\\' {
            js_analyze_from(
                s,
                if i + 2 <= s.len() {
                    i + 2
                } else {
                    s.len() as int
                },
                true,
                sc,
                in_tmpl,
                bal,
                brace,
                arrow,
            )
        } else {
            js_analyze_from(s, i + 1, true, sc, in_tmpl, bal, brace, arrow)
        }
    } else if s[i] == '"' || s[i] == '\'' {
        js_analyze_from(s, i + 1, true, s[i], in_tmpl, bal, brace, arrow)
    } else if s[i] == '`' {
        js_analyze_from(s, i + 1, in_str, sc, true, bal, brace, arrow)
    } else if s[i] == '(' {
        js_analyze_from(s, i + 1, in_str, sc, in_tmpl, bal + 1, brace, arrow)
    } else if s[i] == ')' {
        js_analyze_from(s, i + 1, in_str, sc, in_tmpl, bal - 1, brace, arrow)
    } else if s[i] == '{' {
        js_analyze_from(s, i + 1, in_str, sc, in_tmpl, bal, true, arrow)
    } else if s[i] == '=' && i + 1 < s.len() && s[i + 1] == '>' {
        js_analyze_from(s, i + 2, in_str, sc, in_tmpl, bal, brace, true)
    } else if s[i] == '/' && i + 1 < s.len() && s[i + 1] == '/' {
        (bal, brace, arrow)
    } else {
        js_analyze_from(s, i + 1, in_str, sc, in_tmpl, bal, brace, arrow)
    }
}

/// The paren balance, brace presence and arrow presence of a whole line.
pub open spec fn js_analyze(s: Seq<char>) -> (int, bool, bool) {
    js_analyze_from(s, 0, false, ' ', false, 0, false, false)
}

/// Count parens and detect braces and arrows in a line of characters.
pub fn analyze_js_line(line: &Vec<char>) -> (r: (i128, bool, bool))
    ensures
        (r.0 as int, r.1, r.2) == js_analyze(line@),
        -(line@.len() as int) <= r.0 as int <= line@.len() as int,
{
    let n = line.len();
    let mut bal: i128 = 0;
    let mut brace = false;
    let mut arrow = false;
    let mut in_str = false;
    let mut sc: char = ' ';
    let mut in_tmpl = false;
    let mut i: usize = 0;
    loop
        invariant
            0 <= i <= n == line@.len(),
            -(i as int) <= bal as int <= i as int,
            js_analyze(line@) == js_analyze_from(
                line@,
                i as int,
                in_str,
                sc,
                in_tmpl,
                bal as int,
                brace,
                arrow,
            ),
        decreases n - i,
    {
        if i >= n {
            return (bal, brace, arrow);
        }
        let c = line[i];
        if in_tmpl {
            if c == '`' {
                in_tmpl = false;
            }
            i = i + 1;
        } else if in_str {
            if c == sc {
                in_str = false;
                i = i + 1;
            } else if c == '\\' {
                i = if i + 1 < n {
                    i + 2
                } else {
                    n
                };
            } else {
                i = i + 1;
            }
        } else if c == '"' || c == '\'' {
            in_str = true;
            sc = c;
            i = i + 1;
        } else if c == '`' {
            in_tmpl = true;
            i = i + 1;
        } else if c == '(' {
            bal = bal + 1;
            i = i + 1;
        } else if c == ')' {
            bal = bal - 1;
            i = i + 1;
        } else if c == '{' {
            brace = true;
            i = i + 1;
        } else if c == '=' && i + 1 < n && line[i + 1] == '>' {
            arrow = true;
            i = i + 2;
        } else if c == '/' && i + 1 < n && line[i + 1] == '/' {
            return (bal, brace, arrow);
        } else {
            i = i + 1;
        }
    }
}

/// The cross-line state of the JavaScript cleaner.
pub ghost struct JsCleanState {
    /// Whether we are inside a block comment.
    pub in_bc: bool,
    /// Whether we are inside a multi-line signature.
    pub in_signature: bool,
    /// Unbalanced parens accumulated by the signature so far.
    pub paren_depth: int,
}

/// What one raw line yields under the JavaScript cleaner.
pub open spec fn js_line_output(line: Seq<char>, st: JsCleanState, min_chars: u32) -> Option<
    Seq<char>,
> {
    let t = trim_spec(c_strip(line, st.in_bc, true).0);
    if t.len() == 0 {
        Option::None
    } else if st.in_signature {
        Option::None
    } else if js_decorator_spec(t) {
        Option::None
    } else if js_signature_spec(t) {
        Option::None
    } else if js_directive_spec(t) {
        Option::None
    } else if valid_line(t, min_chars) {
        Option::Some(t)
    } else {
        Option::None
    }
}

/// The cleaner state after one raw line.
pub open spec fn js_line_state(line: Seq<char>, st: JsCleanState) -> JsCleanState {
    let stripped = c_strip(line, st.in_bc, true);
    let t = trim_spec(stripped.0);
    let bc = stripped.1;
    if t.len() == 0 {
        JsCleanState { in_bc: bc, in_signature: st.in_signature, paren_depth: st.paren_depth }
    } else if st.in_signature {
        let a = js_analyze(t);
        let d2 = crate::filetype::rust_lang::sat_add_spec(st.paren_depth, a.0);
        if d2 <= 0 && (a.1 || a.2) {
            JsCleanState { in_bc: bc, in_signature: false, paren_depth: 0 }
        } else {
            JsCleanState { in_bc: bc, in_signature: true, paren_depth: d2 }
        }
    } else if js_decorator_spec(t) {
        JsCleanState { in_bc: bc, in_signature: false, paren_depth: st.paren_depth }
    } else if js_signature_spec(t) {
        let a = js_analyze(t);
        if a.0 <= 0 && (a.1 || a.2) {
            JsCleanState { in_bc: bc, in_signature: false, paren_depth: 0 }
        } else {
            JsCleanState { in_bc: bc, in_signature: true, paren_depth: a.0 }
        }
    } else {
        JsCleanState { in_bc: bc, in_signature: false, paren_depth: st.paren_depth }
    }
}

/// The cleaned lines produced from raw line `i` onward.
pub open spec fn js_clean_from(
    lines: Seq<Seq<char>>,
    i: int,
    st: JsCleanState,
    min_chars: u32,
) -> Seq<(Seq<char>, int)>
    decreases lines.len() - i,
{
    if i < 0 || i >= lines.len() {
        Seq::empty()
    } else {
        let rest = js_clean_from(lines, i + 1, js_line_state(lines[i], st), min_chars);
        match js_line_output(lines[i], st, min_chars) {
            Option::Some(t) => seq![(t, i + 1)] + rest,
            Option::None => rest,
        }
    }
}

impl JavaScriptFileType {
    /// Create a new JavaScript/TypeScript processor.
    pub fn new(min_chars: u32) -> (r: Self)
        ensures
            r.min_chars == min_chars,
    {
        JavaScriptFileType { min_chars }
    }

    /// Whether a line is an import-style statement.
    pub fn is_preprocessor_directive(line: &str) -> (r: bool)
        ensures
            r == js_directive_spec(line@),
    {
        let chars = str_chars(line);
        let t = trim_start_chars(&chars);
        crate::text::trimmed_starts_with(&chars, "import ") || crate::text::trimmed_starts_with(
            &chars,
            "export ",
        ) || crate::text::trimmed_starts_with(&chars, "require(")
            || (crate::text::trimmed_starts_with(&chars, "const ") && crate::text::contains_str(
            &t,
            "require(",
        ))
    }

    /// Whether a line is a decorator.
    pub fn is_decorator(line: &str) -> (r: bool)
        ensures
            r == js_decorator_spec(line@),
    {
        let chars = str_chars(line);
        crate::text::trimmed_starts_char(&chars, '@')
    }

    /// Whether a line starts a function or method signature.
    pub fn starts_signature(line: &str) -> (r: bool)
        ensures
            r == js_signature_spec(line@),
    {
        let chars = str_chars(line);
        let t = trim_start_chars(&chars);
        if crate::text::trimmed_starts_with(&chars, "class ") || crate::text::trimmed_starts_with(
            &chars,
            "interface ",
        ) || crate::text::trimmed_starts_with(&chars, "type ")
            || crate::text::trimmed_starts_with(&chars, "enum ") {
            return false;
        }
        if crate::text::trimmed_starts_with(&chars, "function ")
            || crate::text::trimmed_starts_with(&chars, "async function ") {
            return true;
        }
        if !has_char(&t, '(') {
            return false;
        }
        let before = cut_at_char(&t, '(');
        if has_char(&before, '.') {
            return false;
        }
        let w = get_first_word(&before);
        if chars_eq_str(&w, "if") || chars_eq_str(&w, "while") || chars_eq_str(&w, "for")
            || chars_eq_str(&w, "switch") || chars_eq_str(&w, "catch") || chars_eq_str(
            &w,
            "with",
        ) {
            return false;
        }
        if chars_eq_str(&w, "return") || chars_eq_str(&w, "throw") || chars_eq_str(&w, "new")
            || chars_eq_str(&w, "await") || chars_eq_str(&w, "yield") || chars_eq_str(
            &w,
            "typeof",
        ) || chars_eq_str(&w, "delete") {
            return false;
        }
        if crate::text::trimmed_starts_with(&chars, "const ") || crate::text::trimmed_starts_with(
            &chars,
            "let ",
        ) || crate::text::trimmed_starts_with(&chars, "var ") {
            return false;
        }
        if chars_eq_str(&w, "public") || chars_eq_str(&w, "private") || chars_eq_str(
            &w,
            "protected",
        ) || chars_eq_str(&w, "static") || chars_eq_str(&w, "readonly") || chars_eq_str(
            &w,
            "abstract",
        ) || chars_eq_str(&w, "override") || chars_eq_str(&w, "async") {
            return true;
        }
        let wc = count_words(&before);
        if wc == 1 || (wc == 2 && chars_eq_str(&w, "async")) {
            if crate::text::has_char(&t, '{') || crate::text::contains_str(&t, "):")
                || crate::text::contains_str(&t, "): ") {
                return true;
            }
            if t.len() > 0 && t[t.len() - 1] == '(' {
                return true;
            }
        }
        if wc != 0 && (crate::text::contains_str(&t, "): ") || crate::text::contains_str(
            &t,
            "):",
        )) {
            return true;
        }
        false
    }

    /// Clean a whole file.
    pub fn get_cleaned_source_lines(&self, lines: &Vec<String>) -> (r: Vec<SourceLine>)
        ensures
            line_models(r@) == js_clean_from(
                lines@.map_values(|s: String| s@),
                0,
                JsCleanState { in_bc: false, in_signature: false, paren_depth: 0 },
                self.min_chars,
            ),
            lines_wf(r@),
    {
        let ghost all = lines@.map_values(|s: String| s@);
        let mut result: Vec<SourceLine> = Vec::new();
        let mut in_bc = false;
        let mut in_signature = false;
        let mut paren_depth: i128 = 0;
        let mut idx: usize = 0;
        while idx < lines.len()
            invariant
                0 <= idx <= lines@.len(),
                all == lines@.map_values(|s: String| s@),
                all.len() == lines@.len(),
                js_clean_from(
                    all,
                    0,
                    JsCleanState { in_bc: false, in_signature: false, paren_depth: 0 },
                    self.min_chars,
                ) =~= line_models(result@) + js_clean_from(
                    all,
                    idx as int,
                    JsCleanState { in_bc, in_signature, paren_depth: paren_depth as int },
                    self.min_chars,
                ),
                lines_wf(result@),
            decreases lines@.len() - idx,
        {
            let ghost st = JsCleanState { in_bc, in_signature, paren_depth: paren_depth as int };
            let chars = str_chars(lines[idx].as_str());
            proof {
                assert(all[idx as int] == lines@[idx as int]@);
            }
            let (stripped, bc2) = strip_c_comments(&chars, in_bc, true);
            let trimmed = trim_chars(&stripped);
            let ghost t = trim_spec(c_strip(all[idx as int], st.in_bc, true).0);
            let ghost prev = line_models(result@);
            let ghost st2 = js_line_state(all[idx as int], st);
            let ghost out = js_line_output(all[idx as int], st, self.min_chars);
            in_bc = bc2;
            if trimmed.len() > 0 {
                let ts = chars_to_string(&trimmed);
                if in_signature {
                    let (bal, brace, arrow) = analyze_js_line(&trimmed);
                    let d2 = crate::filetype::rust_lang::sat_add_i128(paren_depth, bal);
                    if d2 <= 0 && (brace || arrow) {
                        in_signature = false;
                        paren_depth = 0;
                    } else {
                        paren_depth = d2;
                    }
                } else if Self::is_decorator(ts.as_str()) {
                    // dropped
                } else if Self::starts_signature(ts.as_str()) {
                    let (bal, brace, arrow) = analyze_js_line(&trimmed);
                    if bal <= 0 && (brace || arrow) {
                        paren_depth = 0;
                    } else {
                        in_signature = true;
                        paren_depth = bal;
                    }
                } else if Self::is_preprocessor_directive(ts.as_str()) {
                    // dropped
                } else if is_valid_trimmed(&trimmed, &ts, self.min_chars) {
                    let l = SourceLine::new(ts, idx + 1);
                    result.push(l);
                    proof {
                        assert(line_models(result@) =~= prev.push((t, idx + 1)));
                    }
                }
            }
            proof {
                assert(out is Some ==> line_models(result@) =~= prev.push((t, idx + 1)));
                assert(out is None ==> line_models(result@) =~= prev);
                assert(st2 == JsCleanState {
                    in_bc,
                    in_signature,
                    paren_depth: paren_depth as int,
                });
                if out is Some {
                    assert(prev + (seq![(t, idx as int + 1)] + js_clean_from(
                        all,
                        idx + 1,
                        st2,
                        self.min_chars,
                    )) =~= line_models(result@) + js_clean_from(all, idx + 1, st2, self.min_chars));
                }
            }
            idx = idx + 1;
        }
        proof {
            assert(js_clean_from(
                all,
                idx as int,
                JsCleanState { in_bc, in_signature, paren_depth: paren_depth as int },
                self.min_chars,
            ) =~= Seq::<(Seq<char>, int)>::empty());
            assert(line_models(result@) + Seq::<(Seq<char>, int)>::empty() =~= line_models(
                result@,
            ));
        }
        result
    }
}

/// Cleaning idempotence: a line the JavaScript cleaner keeps, cleaned
/// again on its own from a fresh state, is kept unchanged.
pub proof fn lemma_cleaning_idempotent(line: Seq<char>, st: JsCleanState, min_chars: u32)
    requires
        js_line_output(line, st, min_chars) is Some,
    ensures
        js_line_output(
            js_line_output(line, st, min_chars).unwrap(),
            JsCleanState { in_bc: false, in_signature: false, paren_depth: 0 },
            min_chars,
        ) == js_line_output(line, st, min_chars),
{
    crate::filetype::common::lemma_stripped_trimmed_fixed(line, st.in_bc);
}

} // verus!
