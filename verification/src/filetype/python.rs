//! Python line cleaning.

use vstd::prelude::*;

verus! {

use crate::filetype::common::{is_valid_trimmed, line_models, lines_wf, valid_line};
use crate::line::SourceLine;
use crate::text::{
    chars_to_string, contains_char, contains_seq, count_char, count_char_upto, find_char,
    find_pat, find_pattern, has_prefix, lemma_take_before_char_at, lemma_take_before_char_none,
    matches_at,
    rfind_char_exact, rfind_char_sp, str_chars, subrange_chars, take_before_char, trim_chars,
    trim_end_chars, trim_end_spec, trim_spec, trim_start_spec, trimmed_starts_with,
};

/// Python source processor: `#` comments behind a quote-parity heuristic,
/// triple-quoted string suppression, and filtering of imports, decorators
/// and `def` signatures.
pub struct PythonFileType {
    /// Minimum byte count for a kept line.
    pub min_chars: u32,
}

/// The cross-line state of the Python cleaner.
pub ghost struct PyCleanState {
    /// Whether we are inside a triple-quoted string.
    pub in_mls: bool,
    /// Whether the open delimiter is `"""` rather than `'''`.
    pub mls_double: bool,
    /// Whether we are inside a multi-line `def` signature.
    pub in_signature: bool,
    /// Unbalanced parens accumulated by the signature so far.
    pub paren_depth: int,
}

/// The triple-quote delimiter as characters.
pub open spec fn py_delim(dbl: bool) -> Seq<char> {
    if dbl {
        "\"\"\""@
    } else {
        "'''"@
    }
}

/// A line that is an `import` or `from` statement.
pub open spec fn py_directive_spec(s: Seq<char>) -> bool {
    has_prefix(trim_start_spec(s), "import "@) || has_prefix(trim_start_spec(s), "from "@)
}

/// A line that is a decorator.
pub open spec fn py_decorator_spec(s: Seq<char>) -> bool {
    trim_start_spec(s).len() > 0 && trim_start_spec(s)[0] == '@'
}

/// A line that starts a function signature.
pub open spec fn py_sig_start_spec(s: Seq<char>) -> bool {
    has_prefix(trim_start_spec(s), "def "@) || has_prefix(trim_start_spec(s), "async def "@)
}

/// Paren counting with the conservative quote heuristic, from position
/// `i`: quotes toggle a string state, a doubled closing quote stays inside,
/// and `#` outside strings ends the scan.
pub open spec fn py_count_from(
    s: Seq<char>,
    i: int,
    in_str: bool,
    sc: char,
    open: int,
    close: int,
) -> (int, int)
    decreases s.len() - i,
{
    if i < 0 || i >= s.len() {
        (open, close)
    } else if in_str {
        if s[i] == sc && (i + 1 >= s.len() || s[i + 1] != sc) {
            py_count_from(s, i + 1, false, sc, open, close)
        } else {
            py_count_from(s, i + 1, true, sc, open, close)
        }
    } else if s[i] == '"' || s[i] == '\'' {
        py_count_from(s, i + 1, true, s[i], open, close)
    } else if s[i] == '(' {
        py_count_from(s, i + 1, in_str, sc, open + 1, close)
    } else if s[i] == ')' {
        py_count_from(s, i + 1, in_str, sc, open, close + 1)
    } else if s[i] == '#' {
        (open, close)
    } else {
        py_count_from(s, i + 1, in_str, sc, open, close)
    }
}

/// The open and close paren counts of a whole line.
pub open spec fn py_count_parens(s: Seq<char>) -> (int, int) {
    py_count_from(s, 0, false, ' ', 0, 0)
}

/// A line that closes a signature: it ends with `:`, or its last `:` is
/// followed only by the start of a docstring.
pub open spec fn py_ends_signature(s: Seq<char>) -> bool {
    let te = trim_end_spec(s);
    if te.len() > 0 && te.last() == ':' {
        true
    } else {
        match rfind_char_sp(te, ':') {
            Option::Some(cp) => {
                let after = trim_start_spec(te.skip(cp + 1));
                has_prefix(after, "\"\"\""@) || has_prefix(after, "'''"@)
            },
            Option::None => false,
        }
    }
}

/// A line with its `#` comment removed, unless the quote parity before the
/// first `#` suggests it sits inside a string.
pub open spec fn py_remove_comment(s: Seq<char>) -> Seq<char> {
    if contains_char(s, '#') {
        let b = take_before_char(s, '#');
        if count_char(b, '\'') % 2 == 0 && count_char(b, '"') % 2 == 0 {
            b
        } else {
            s
        }
    } else {
        s
    }
}

/// The first triple-quote delimiter on a line: whether it is `"""` and its
/// position.
pub open spec fn py_first_triple(s: Seq<char>) -> Option<(bool, int)> {
    match (find_pat(s, "\"\"\""@), find_pat(s, "'''"@)) {
        (Option::Some(d), Option::Some(x)) => if d < x {
            Option::Some((true, d))
        } else {
            Option::Some((false, x))
        },
        (Option::Some(d), Option::None) => Option::Some((true, d)),
        (Option::None, Option::Some(x)) => Option::Some((false, x)),
        (Option::None, Option::None) => Option::None,
    }
}

/// Whether a single-line signature opens a docstring after its last colon,
/// and with which delimiter.
pub open spec fn py_sig_doc(s: Seq<char>) -> (bool, bool) {
    match rfind_char_sp(s, ':') {
        Option::Some(cp) => {
            let after = s.skip(cp + 1);
            match py_first_triple(after) {
                Option::Some((dbl, pos)) => {
                    let after_open = after.skip(pos + 3);
                    if !contains_seq(after_open, py_delim(dbl)) {
                        (true, dbl)
                    } else {
                        (false, dbl)
                    }
                },
                Option::None => (false, false),
            }
        },
        Option::None => (false, false),
    }
}

/// What the code before a docstring (or a whole plain line) yields: comment
/// removed, trimmed, and kept when valid and no import.
pub open spec fn py_code_output(code: Seq<char>, min_chars: u32) -> Option<Seq<char>> {
    let t = trim_spec(py_remove_comment(code));
    if t.len() != 0 && valid_line(t, min_chars) && !py_directive_spec(t) {
        Option::Some(t)
    } else {
        Option::None
    }
}

/// What one raw line yields under the Python cleaner.
pub open spec fn py_line_output(line: Seq<char>, st: PyCleanState, min_chars: u32) -> Option<
    Seq<char>,
> {
    if st.in_mls {
        Option::None
    } else if st.in_signature {
        Option::None
    } else if py_decorator_spec(line) {
        Option::None
    } else if py_sig_start_spec(line) {
        Option::None
    } else {
        match py_first_triple(line) {
            Option::Some((dbl, idx)) => py_code_output(line.take(idx), min_chars),
            Option::None => py_code_output(line, min_chars),
        }
    }
}

/// The cleaner state after one raw line.
pub open spec fn py_line_state(line: Seq<char>, st: PyCleanState) -> PyCleanState {
    if st.in_mls {
        if contains_seq(line, py_delim(st.mls_double)) {
            PyCleanState {
                in_mls: false,
                mls_double: false,
                in_signature: st.in_signature,
                paren_depth: st.paren_depth,
            }
        } else {
            st
        }
    } else if st.in_signature {
        let oc = py_count_parens(line);
        let d2 = crate::filetype::rust_lang::sat_add_spec(st.paren_depth, oc.0 - oc.1);
        if d2 <= 0 && py_ends_signature(line) {
            PyCleanState { in_mls: false, mls_double: false, in_signature: false, paren_depth: 0 }
        } else {
            PyCleanState { in_mls: false, mls_double: false, in_signature: true, paren_depth: d2 }
        }
    } else if py_decorator_spec(line) {
        st
    } else if py_sig_start_spec(line) {
        let oc = py_count_parens(line);
        let d = oc.0 - oc.1;
        if d <= 0 && py_ends_signature(line) {
            let doc = py_sig_doc(line);
            if doc.0 {
                PyCleanState {
                    in_mls: true,
                    mls_double: doc.1,
                    in_signature: false,
                    paren_depth: 0,
                }
            } else {
                PyCleanState {
                    in_mls: false,
                    mls_double: false,
                    in_signature: false,
                    paren_depth: 0,
                }
            }
        } else {
            PyCleanState { in_mls: false, mls_double: false, in_signature: true, paren_depth: d }
        }
    } else {
        match py_first_triple(line) {
            Option::Some((dbl, idx)) => {
                let after = line.skip(idx + 3);
                if contains_seq(after, py_delim(dbl)) {
                    st
                } else {
                    PyCleanState {
                        in_mls: true,
                        mls_double: dbl,
                        in_signature: st.in_signature,
                        paren_depth: st.paren_depth,
                    }
                }
            },
            Option::None => st,
        }
    }
}

/// The cleaned lines produced from raw line `i` onward.
pub open spec fn py_clean_from(
    lines: Seq<Seq<char>>,
    i: int,
    st: PyCleanState,
    min_chars: u32,
) -> Seq<(Seq<char>, int)>
    decreases lines.len() - i,
{
    if i < 0 || i >= lines.len() {
        Seq::empty()
    } else {
        let rest = py_clean_from(lines, i + 1, py_line_state(lines[i], st), min_chars);
        match py_line_output(lines[i], st, min_chars) {
            Option::Some(t) => seq![(t, i + 1)] + rest,
            Option::None => rest,
        }
    }
}

/// Remove the `#` comment of a line of characters, behind the quote-parity
/// heuristic.
fn remove_comment_chars(v: &Vec<char>) -> (r: Vec<char>)
    ensures
        r@ == py_remove_comment(v@),
{
    let n = v.len();
    match find_char(v, '#') {
        Some(i) => {
            proof {
                lemma_take_before_char_at(v@, '#', i as int);
                assert(v@.subrange(0, i as int) =~= v@.take(i as int));
            }
            let q1 = count_char_upto(v, '\'', i);
            let q2 = count_char_upto(v, '"', i);
            if q1 % 2 == 0 && q2 % 2 == 0 {
                subrange_chars(v, 0, i)
            } else {
                subrange_chars(v, 0, n)
            }
        },
        None => {
            proof {
                assert(v@.subrange(0, n as int) =~= v@);
            }
            subrange_chars(v, 0, n)
        },
    }
}

impl PythonFileType {
    /// Create a new Python processor.
    pub fn new(min_chars: u32) -> (r: Self)
        ensures
            r.min_chars == min_chars,
    {
        PythonFileType { min_chars }
    }

    /// Whether a line is an `import` or `from` statement.
    pub fn is_preprocessor_directive(line: &str) -> (r: bool)
        ensures
            r == py_directive_spec(line@),
    {
        let chars = str_chars(line);
        trimmed_starts_with(&chars, "import ") || trimmed_starts_with(&chars, "from ")
    }

    /// Whether a line is a decorator.
    pub fn is_decorator(line: &str) -> (r: bool)
        ensures
            r == py_decorator_spec(line@),
    {
        let chars = str_chars(line);
        crate::text::trimmed_starts_char(&chars, '@')
    }

    /// Whether a line starts a function signature.
    pub fn starts_signature(line: &str) -> (r: bool)
        ensures
            r == py_sig_start_spec(line@),
    {
        let chars = str_chars(line);
        trimmed_starts_with(&chars, "def ") || trimmed_starts_with(&chars, "async def ")
    }

    /// Count parens on a line, with the quote heuristic.
    pub fn count_parens(line: &str) -> (r: (usize, usize))
        ensures
            (r.0 as int, r.1 as int) == py_count_parens(line@),
    {
        let chars = str_chars(line);
        let n = chars.len();
        let mut open: usize = 0;
        let mut close: usize = 0;
        let mut in_str = false;
        let mut sc: char = ' ';
        let mut i: usize = 0;
        loop
            invariant
                0 <= i <= n == chars@.len(),
                chars@ == line@,
                open + close <= i,
                py_count_parens(line@) == py_count_from(
                    line@,
                    i as int,
                    in_str,
                    sc,
                    open as int,
                    close as int,
                ),
            decreases n - i,
        {
            if i >= n {
                return (open, close);
            }
            let c = chars[i];
            if in_str {
                if c == sc && (i + 1 >= n || chars[i + 1] != sc) {
                    in_str = false;
                }
                i = i + 1;
            } else if c == '"' || c == '\'' {
                in_str = true;
                sc = c;
                i = i + 1;
            } else if c == '(' {
                open = open + 1;
                i = i + 1;
            } else if c == ')' {
                close = close + 1;
                i = i + 1;
            } else if c == '#' {
                return (open, close);
            } else {
                i = i + 1;
            }
        }
    }

    /// Whether a line closes a signature.
    pub fn ends_signature(line: &str) -> (r: bool)
        ensures
            r == py_ends_signature(line@),
    {
        let chars = str_chars(line);
        let te = trim_end_chars(&chars);
        let m = te.len();
        if m > 0 && te[m - 1] == ':' {
            return true;
        }
        match rfind_char_exact(&te, ':') {
            Some(cp) => {
                proof {
                    crate::text::lemma_rfind_char_matches(te@, ':');
                }
                let after = subrange_chars(&te, cp + 1, m);
                proof {
                    assert(after@ =~= trim_end_spec(line@).skip(cp + 1));
                }
                trimmed_starts_with(&after, "\"\"\"") || trimmed_starts_with(&after, "'''")
            },
            None => false,
        }
    }

    /// The line with its comment removed, behind the quote heuristic.
    pub fn remove_comment(line: &str) -> (r: String)
        ensures
            r@ == py_remove_comment(line@),
    {
        let chars = str_chars(line);
        let cut = remove_comment_chars(&chars);
        chars_to_string(&cut)
    }

    /// Process the code part of a line: strip its comment, trim, and keep
    /// it when valid and not an import.
    fn emit_code(code: &Vec<char>, min_chars: u32, line_number: usize, result: &mut Vec<
        SourceLine,
    >)
        ensures
            (py_code_output(code@, min_chars) is Some) ==> {
                &&& final(result)@.len() == old(result)@.len() + 1
                &&& final(result)@.drop_last() == old(result)@
                &&& final(result)@.last().line@ == py_code_output(code@, min_chars).unwrap()
                &&& final(result)@.last().line_number == line_number
                &&& final(result)@.last().wf()
            },
            (py_code_output(code@, min_chars) is None) ==> final(result)@ == old(result)@,
            lines_wf(old(result)@) ==> lines_wf(final(result)@),
    {
        let wc = remove_comment_chars(code);
        let trimmed = trim_chars(&wc);
        if trimmed.len() > 0 {
            let ts = chars_to_string(&trimmed);
            if is_valid_trimmed(&trimmed, &ts, min_chars) && !Self::is_preprocessor_directive(
                ts.as_str(),
            ) {
                let l = SourceLine::new(ts, line_number);
                result.push(l);
            }
        }
    }

    /// Clean a whole file.
    pub fn get_cleaned_source_lines(&self, lines: &Vec<String>) -> (r: Vec<SourceLine>)
        ensures
            line_models(r@) == py_clean_from(
                lines@.map_values(|s: String| s@),
                0,
                PyCleanState {
                    in_mls: false,
                    mls_double: false,
                    in_signature: false,
                    paren_depth: 0,
                },
                self.min_chars,
            ),
            lines_wf(r@),
    {
        let ghost all = lines@.map_values(|s: String| s@);
        let mut result: Vec<SourceLine> = Vec::new();
        let mut in_mls = false;
        let mut mls_double = false;
        let mut in_signature = false;
        let mut paren_depth: i128 = 0;
        let mut idx: usize = 0;
        while idx < lines.len()
            invariant
                0 <= idx <= lines@.len(),
                all == lines@.map_values(|s: String| s@),
                all.len() == lines@.len(),
                py_clean_from(
                    all,
                    0,
                    PyCleanState {
                        in_mls: false,
                        mls_double: false,
                        in_signature: false,
                        paren_depth: 0,
                    },
                    self.min_chars,
                ) =~= line_models(result@) + py_clean_from(
                    all,
                    idx as int,
                    PyCleanState {
                        in_mls,
                        mls_double,
                        in_signature,
                        paren_depth: paren_depth as int,
                    },
                    self.min_chars,
                ),
                lines_wf(result@),
                !in_mls ==> !mls_double,
            decreases lines@.len() - idx,
        {
            let ghost st = PyCleanState {
                in_mls,
                mls_double,
                in_signature,
                paren_depth: paren_depth as int,
            };
            let raw = lines[idx].as_str();
            let chars = str_chars(raw);
            proof {
                assert(all[idx as int] == lines@[idx as int]@);
            }
            let n = chars.len();
            let ghost prev = line_models(result@);
            let ghost st2 = py_line_state(all[idx as int], st);
            let ghost out = py_line_output(all[idx as int], st, self.min_chars);
            if in_mls {
                let found = if mls_double {
                    crate::text::contains_str(&chars, "\"\"\"")
                } else {
                    crate::text::contains_str(&chars, "'''")
                };
                if found {
                    in_mls = false;
                    mls_double = false;
                }
            } else if in_signature {
                let (o, c) = Self::count_parens(raw);
                let bal: i128 = (o as i128) - (c as i128);
                let d2 = crate::filetype::rust_lang::sat_add_i128(paren_depth, bal);
                if d2 <= 0 && Self::ends_signature(raw) {
                    in_signature = false;
                    paren_depth = 0;
                } else {
                    paren_depth = d2;
                }
            } else if Self::is_decorator(raw) {
                // dropped
            } else if Self::starts_signature(raw) {
                let (o, c) = Self::count_parens(raw);
                let bal: i128 = (o as i128) - (c as i128);
                if bal <= 0 && Self::ends_signature(raw) {
                    paren_depth = 0;
                    let (enter, dbl) = Self::sig_doc(&chars);
                    if enter {
                        in_mls = true;
                        mls_double = dbl;
                    }
                } else {
                    in_signature = true;
                    paren_depth = bal;
                }
            } else {
                let fd = find_pattern(&chars, "\"\"\"");
                let fs = find_pattern(&chars, "'''");
                let picked: Option<(bool, usize)> = match (fd, fs) {
                    (Some(d), Some(x)) => if d < x {
                        Some((true, d))
                    } else {
                        Some((false, x))
                    },
                    (Some(d), None) => Some((true, d)),
                    (None, Some(x)) => Some((false, x)),
                    (None, None) => None,
                };
                match picked {
                    Some((dbl, start_idx)) => {
                        proof {
                            assert(py_first_triple(all[idx as int]) == Option::Some(
                                (dbl, start_idx as int),
                            ));
                        }
                        proof {
                            reveal_strlit("\"\"\"");
                            reveal_strlit("'''");
                            crate::text::lemma_find_pat_matches(chars@, "\"\"\""@);
                            crate::text::lemma_find_pat_matches(chars@, "'''"@);
                        }
                        let after = subrange_chars(&chars, start_idx + 3, n);
                        proof {
                            assert(after@ =~= all[idx as int].skip(start_idx + 3));
                        }
                        let closes = if dbl {
                            crate::text::contains_str(&after, "\"\"\"")
                        } else {
                            crate::text::contains_str(&after, "'''")
                        };
                        if !closes {
                            in_mls = true;
                            mls_double = dbl;
                        }
                        let before = subrange_chars(&chars, 0, start_idx);
                        proof {
                            assert(before@ =~= all[idx as int].take(start_idx as int));
                        }
                        Self::emit_code(&before, self.min_chars, idx + 1, &mut result);
                    },
                    None => {
                        Self::emit_code(&chars, self.min_chars, idx + 1, &mut result);
                    },
                }
            }
            proof {
                assert(out is Some ==> line_models(result@) =~= prev.push(
                    (out.unwrap(), idx + 1),
                ));
                assert(out is None ==> line_models(result@) =~= prev);
                assert(st2 == PyCleanState {
                    in_mls,
                    mls_double,
                    in_signature,
                    paren_depth: paren_depth as int,
                });
                if out is Some {
                    assert(prev + (seq![(out.unwrap(), idx as int + 1)] + py_clean_from(
                        all,
                        idx + 1,
                        st2,
                        self.min_chars,
                    )) =~= line_models(result@) + py_clean_from(all, idx + 1, st2, self.min_chars));
                }
            }
            idx = idx + 1;
        }
        proof {
            assert(py_clean_from(
                all,
                idx as int,
                PyCleanState { in_mls, mls_double, in_signature, paren_depth: paren_depth as int },
                self.min_chars,
            ) =~= Seq::<(Seq<char>, int)>::empty());
            assert(line_models(result@) + Seq::<(Seq<char>, int)>::empty() =~= line_models(
                result@,
            ));
        }
        result
    }

    /// Whether a single-line signature opens a docstring after its colon.
    fn sig_doc(chars: &Vec<char>) -> (r: (bool, bool))
        ensures
            r == py_sig_doc(chars@),
    {
        let n = chars.len();
        match rfind_char_exact(chars, ':') {
            Some(cp) => {
                proof {
                    crate::text::lemma_rfind_char_matches(chars@, ':');
                }
                let after = subrange_chars(chars, cp + 1, n);
                proof {
                    assert(after@ =~= chars@.skip(cp + 1));
                }
                let fd = find_pattern(&after, "\"\"\"");
                let fs = find_pattern(&after, "'''");
                let picked: Option<(bool, usize)> = match (fd, fs) {
                    (Some(d), Some(x)) => if d < x {
                        Some((true, d))
                    } else {
                        Some((false, x))
                    },
                    (Some(d), None) => Some((true, d)),
                    (None, Some(x)) => Some((false, x)),
                    (None, None) => None,
                };
                match picked {
                    Some((dbl, pos)) => {
                        proof {
                            reveal_strlit("\"\"\"");
                            reveal_strlit("'''");
                            crate::text::lemma_find_pat_matches(after@, "\"\"\""@);
                            crate::text::lemma_find_pat_matches(after@, "'''"@);
                            assert(py_first_triple(after@) == Option::Some((dbl, pos as int)));
                            assert(pos + 3 <= after@.len());
                        }
                        let after_open = subrange_chars(&after, pos + 3, after.len());
                        proof {
                            assert(after_open@ =~= after@.skip(pos + 3));
                        }
                        let closes = if dbl {
                            crate::text::contains_str(&after_open, "\"\"\"")
                        } else {
                            crate::text::contains_str(&after_open, "'''")
                        };
                        (!closes, dbl)
                    },
                    None => (false, false),
                }
            },
            None => (false, false),
        }
    }
}

/// The code slice a kept line came from: the whole line, or the part
/// before its first triple-quote delimiter.
pub open spec fn py_code_slice(line: Seq<char>) -> Seq<char> {
    match py_first_triple(line) {
        Option::Some((dbl, idx)) => line.take(idx),
        Option::None => line,
    }
}

/// Neither triple-quote delimiter occurs in the kept text of a line.
proof fn lemma_py_output_triple_free(line: Seq<char>, lo: int, tlen: int, p: Seq<char>)
    requires
        p.len() == 3,
        0 <= lo,
        0 <= tlen,
        lo + tlen <= py_code_slice(line).len(),
        py_first_triple(line) is Some ==> 0 <= py_first_triple(line).unwrap().1 <= line.len(),
        find_pat(line, p) is Some ==> py_first_triple(line) is Some && py_first_triple(
            line,
        ).unwrap().1 <= find_pat(line, p).unwrap(),
    ensures
        forall|j: int| !#[trigger] matches_at(py_code_slice(line).subrange(lo, lo + tlen), p, j),
{
    let code = py_code_slice(line);
    let t = code.subrange(lo, lo + tlen);
    crate::text::lemma_find_pat_complete(line, p);
    assert forall|j: int| !matches_at(t, p, j) by {
        if matches_at(t, p, j) {
            crate::text::lemma_matches_in_subrange(code, lo, lo + tlen, p, j);
            assert(matches_at(code, p, lo + j));
            if py_first_triple(line) is Some {
                let idx = py_first_triple(line).unwrap().1;
                assert(code =~= line.take(idx));
                crate::text::lemma_matches_in_subrange(line, 0, idx, p, lo + j);
                assert(matches_at(line, p, lo + j));
                assert(lo + j + 3 <= idx);
                match find_pat(line, p) {
                    Option::Some(f) => {
                        assert(idx <= f);
                        assert(lo + j < f);
                        assert(false);
                    },
                    Option::None => {
                        assert(false);
                    },
                }
            } else {
                assert(code == line);
                match find_pat(line, p) {
                    Option::Some(f) => {
                        assert(false);
                    },
                    Option::None => {
                        assert(false);
                    },
                }
            }
        }
    }
}

/// Cleaning idempotence: a line the Python cleaner keeps, cleaned again on
/// its own from a fresh state, is kept unchanged.
pub proof fn lemma_cleaning_idempotent(line: Seq<char>, st: PyCleanState, min_chars: u32)
    requires
        py_line_output(line, st, min_chars) is Some,
    ensures
        py_line_output(
            py_line_output(line, st, min_chars).unwrap(),
            PyCleanState { in_mls: false, mls_double: false, in_signature: false, paren_depth: 0 },
            min_chars,
        ) == py_line_output(line, st, min_chars),
{
    proof_of_py_idempotence(line, st, min_chars);
}

/// The body of the idempotence argument, split out for readability.
#[verifier::rlimit(80)]
proof fn proof_of_py_idempotence(line: Seq<char>, st: PyCleanState, min_chars: u32)
    requires
        py_line_output(line, st, min_chars) is Some,
    ensures
        py_line_output(
            py_line_output(line, st, min_chars).unwrap(),
            PyCleanState { in_mls: false, mls_double: false, in_signature: false, paren_depth: 0 },
            min_chars,
        ) == py_line_output(line, st, min_chars),
{
    let code = py_code_slice(line);
    let t = py_line_output(line, st, min_chars).unwrap();
    proof_strlit_facts();
    crate::text::lemma_find_pat_matches(line, "\"\"\""@);
    crate::text::lemma_find_pat_matches(line, "'''"@);
    assert(py_first_triple(line) is Some ==> 0 <= py_first_triple(line).unwrap().1
        <= line.len());
    assert(code.len() <= line.len());
    assert(py_code_output(code, min_chars) == Option::Some(t));
    let wc = py_remove_comment(code);
    assert(t == trim_spec(wc));
    assert(t.len() > 0);

    // The comment-stripped code is a prefix of the code, which itself is a
    // prefix of the raw line.
    crate::text::lemma_take_before_position(code, '#');
    let cut = choose|cut: int|
        {
            &&& 0 <= cut <= code.len()
            &&& take_before_char(code, '#') =~= #[trigger] code.take(cut)
            &&& forall|k: int| 0 <= k < cut ==> code[k] != '#'
            &&& (cut < code.len() ==> code[cut] == '#')
        };
    let plen: int = if contains_char(code, '#') && count_char(code.take(cut), '\'') % 2 == 0
        && count_char(code.take(cut), '"') % 2 == 0 {
        cut
    } else {
        code.len() as int
    };
    assert(wc =~= code.take(plen)) by {
        if contains_char(code, '#') {
            assert(take_before_char(code, '#') =~= code.take(cut));
        } else {
            assert(code.take(code.len() as int) =~= code);
        }
    }
    assert forall|k: int| 0 <= k < code.len() implies code[k] == line[k] by {
        assert(0 <= k < line.len());
    }

    // Where the kept text sits inside the comment-stripped code.
    crate::text::lemma_trim_decomposition(wc);
    let lo = choose|lo: int|
        {
            &&& 0 <= lo
            &&& lo + trim_spec(wc).len() <= wc.len()
            &&& trim_spec(wc) =~= #[trigger] wc.subrange(lo, lo + trim_spec(wc).len())
            &&& forall|k: int| 0 <= k < lo ==> crate::text::is_space(wc[k])
            &&& forall|k: int| lo + trim_spec(wc).len() <= k < wc.len() ==> crate::text::is_space(wc[k])
        };
    let tlen = t.len() as int;
    assert(t =~= code.subrange(lo, lo + tlen));
    assert forall|k: int| 0 <= k < lo implies crate::text::is_space(#[trigger] line[k]) by {
        assert(crate::text::is_space(wc[k]));
        assert(wc[k] == code[k]);
    }
    assert(!crate::text::is_space(t[0])) by {
        crate::text::lemma_trim_start_head(wc);
        crate::text::lemma_trim_end_is_prefix(trim_start_spec(wc));
    }
    assert(line[lo] == t[0]);
    crate::text::lemma_trim_start_at(line, lo);
    assert(trim_start_spec(line) =~= line.subrange(lo, line.len() as int));
    assert(trim_start_spec(t) == t);

    // The kept text starts where the raw line's text starts, so the raw
    // line's decorator and signature checks carry over to it.
    assert(!py_decorator_spec(t)) by {
        assert(trim_start_spec(line)[0] == t[0]);
    }
    assert(!py_sig_start_spec(t)) by {
        if has_prefix(t, "def "@) {
            assert(trim_start_spec(line).take("def "@.len() as int) =~= t.take(
                "def "@.len() as int,
            ));
            assert(py_sig_start_spec(line));
        }
        if has_prefix(t, "async def "@) {
            assert(trim_start_spec(line).take("async def "@.len() as int) =~= t.take(
                "async def "@.len() as int,
            ));
            assert(py_sig_start_spec(line));
        }
    }

    // No triple-quote delimiter survives into the kept text.
    assert(py_first_triple(t) is None) by {
        assert(lo + tlen <= code.len());
        lemma_py_output_triple_free(line, lo, tlen, "\"\"\""@);
        lemma_py_output_triple_free(line, lo, tlen, "'''"@);
        crate::text::lemma_find_pat_none(t, "\"\"\""@);
        crate::text::lemma_find_pat_none(t, "'''"@);
    }

    // The comment heuristic leaves the kept text alone: either it has no
    // comment mark at all, or the mark still sits behind odd quote parity.
    assert(py_remove_comment(t) == t) by {
        if plen == cut && contains_char(code, '#') {
            // The cut dropped the comment; the kept text has no mark.
            assert(forall|j: int| 0 <= j < t.len() ==> t[j] != '#');
            assert(!contains_char(t, '#'));
        } else if !contains_char(code, '#') {
            assert(forall|j: int| 0 <= j < t.len() ==> t[j] != '#');
            assert(!contains_char(t, '#'));
        } else {
            // Kept whole: the first mark sits at `cut` behind odd parity.
            assert(plen == code.len());
            assert(cut < code.len());
            assert(code[cut] == '#');
            assert(!crate::text::is_space('#'));
            assert(lo <= cut) by {
                if cut < lo {
                    assert(crate::text::is_space(wc[cut]));
                }
            }
            assert(cut < lo + tlen) by {
                if cut >= lo + tlen {
                    assert(crate::text::is_space(wc[cut]));
                }
            }
            assert(t[cut - lo] == '#');
            assert(forall|j: int| 0 <= j < cut - lo ==> t[j] != '#');
            assert(contains_char(t, '#'));
            crate::text::lemma_take_before_char_at(t, '#', cut - lo);
            assert(take_before_char(t, '#') =~= t.take(cut - lo));
            assert(t.take(cut - lo) =~= code.subrange(lo, cut));
            crate::text::lemma_count_char_split(code, lo, cut, '\'');
            crate::text::lemma_count_char_split(code, lo, cut, '"');
            assert(forall|k: int| 0 <= k < lo ==> code.take(lo)[k] != '\'');
            assert(forall|k: int| 0 <= k < lo ==> code.take(lo)[k] != '"');
            crate::text::lemma_count_char_zero(code.take(lo), '\'');
            crate::text::lemma_count_char_zero(code.take(lo), '"');
            assert(count_char(t.take(cut - lo), '\'') == count_char(code.take(cut), '\''));
            assert(count_char(t.take(cut - lo), '"') == count_char(code.take(cut), '"'));
        }
    }

    // Trimming the kept text changes nothing more.
    crate::text::lemma_trim_idempotent(wc);
    assert(trim_spec(py_remove_comment(t)) == t);
}

/// The lengths of the two triple-quote delimiters.
proof fn proof_strlit_facts()
    ensures
        "\"\"\""@.len() == 3,
        "'''"@.len() == 3,
{
    reveal_strlit("\"\"\"");
    reveal_strlit("'''");
}

} // verus!
