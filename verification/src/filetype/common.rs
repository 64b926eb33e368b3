//! Shared cleaning logic: comment stripping, trimming, and line validation.

use vstd::prelude::*;

verus! {

use crate::line::SourceLine;
use crate::text::{any_alpha, chars_to_string, has_alpha, str_chars, trim_chars, trim_spec};

/// One pass of C-style comment stripping over a line, from position `i`,
/// carrying the block-comment flag and the text kept so far. `lc` says
/// whether `//` line comments are recognized (they are not for CSS).
/// The result is the kept text and the block-comment flag after the line.
pub open spec fn c_strip_from(line: Seq<char>, i: int, in_bc: bool, lc: bool, acc: Seq<char>) -> (
    Seq<char>,
    bool,
)
    decreases line.len() - i,
{
    if i < 0 || i >= line.len() {
        (acc, in_bc)
    } else if in_bc {
        if line[i] == '*' && i + 1 < line.len() && line[i + 1] == '/' {
            c_strip_from(line, i + 2, false, lc, acc)
        } else {
            c_strip_from(line, i + 1, true, lc, acc)
        }
    } else if line[i] == '/' && i + 1 < line.len() && line[i + 1] == '*' {
        c_strip_from(line, i + 2, true, lc, acc)
    } else if lc && line[i] == '/' && i + 1 < line.len() && line[i + 1] == '/' {
        (acc, false)
    } else {
        c_strip_from(line, i + 1, in_bc, lc, acc.push(line[i]))
    }
}

/// C-style comment stripping of a whole line.
pub open spec fn c_strip(line: Seq<char>, in_bc: bool, lc: bool) -> (Seq<char>, bool) {
    c_strip_from(line, 0, in_bc, lc, Seq::empty())
}

/// Remove C-style comments from a line of characters.
pub fn strip_c_comments(line: &Vec<char>, in_bc0: bool, lc: bool) -> (r: (Vec<char>, bool))
    ensures
        (r.0@, r.1) == c_strip(line@, in_bc0, lc),
{
    let n = line.len();
    let mut acc: Vec<char> = Vec::new();
    let mut in_bc = in_bc0;
    let mut i: usize = 0;
    loop
        invariant
            0 <= i <= n == line@.len(),
            c_strip(line@, in_bc0, lc) == c_strip_from(line@, i as int, in_bc, lc, acc@),
        decreases n - i,
    {
        if i >= n {
            return (acc, in_bc);
        }
        let c = line[i];
        if in_bc {
            if c == '*' && i + 1 < n && line[i + 1] == '/' {
                in_bc = false;
                i = i + 2;
            } else {
                i = i + 1;
            }
        } else if c == '/' && i + 1 < n && line[i + 1] == '*' {
            in_bc = true;
            i = i + 2;
        } else if lc && c == '/' && i + 1 < n && line[i + 1] == '/' {
            return (acc, in_bc);
        } else {
            acc.push(c);
            i = i + 1;
        }
    }
}

/// A cleaned line is kept when its UTF-8 byte length reaches `min_chars` and
/// it holds at least one alphabetic character.
pub open spec fn valid_line(t: Seq<char>, min_chars: u32) -> bool {
    vstd::utf8::encode_utf8(t).len() >= min_chars && has_alpha(t)
}

/// Common line validation: the trimmed line must have at least `min_chars`
/// bytes and contain an alphabetic character.
pub fn is_valid_line(line: &str, min_chars: u32) -> (r: bool)
    ensures
        r == valid_line(trim_spec(line@), min_chars),
{
    let chars = str_chars(line);
    let trimmed = trim_chars(&chars);
    let ts = chars_to_string(&trimmed);
    if (ts.as_str().as_bytes().len() as u64) < (min_chars as u64) {
        return false;
    }
    any_alpha(&trimmed)
}

/// Decide validity of an already-trimmed character vector.
pub fn is_valid_trimmed(t: &Vec<char>, ts: &String, min_chars: u32) -> (r: bool)
    requires
        ts@ == t@,
    ensures
        r == valid_line(t@, min_chars),
{
    if (ts.as_str().as_bytes().len() as u64) < (min_chars as u64) {
        return false;
    }
    any_alpha(t)
}

/// Remove leading and trailing whitespace from a line.
pub fn clean_whitespace(line: &str) -> (r: String)
    ensures
        r@ == trim_spec(line@),
{
    let chars = str_chars(line);
    let trimmed = trim_chars(&chars);
    chars_to_string(&trimmed)
}

/// The text and original line number carried by each produced line.
pub open spec fn line_models(v: Seq<SourceLine>) -> Seq<(Seq<char>, int)> {
    v.map_values(|l: SourceLine| (l.line@, l.line_number as int))
}

/// All produced lines carry the hash of their own text.
pub open spec fn lines_wf(v: Seq<SourceLine>) -> bool {
    forall|k: int| 0 <= k < v.len() ==> (#[trigger] v[k]).wf()
}

/// A text that opens no comment: no `/*` anywhere, and no `//` where line
/// comments are recognized.
pub open spec fn comment_free(s: Seq<char>, lc: bool) -> bool {
    forall|i: int|
        0 <= i < s.len() - 1 ==> !((s[i] == '/' && #[trigger] s[i + 1] == '*') || (lc && s[i] == '/'
            && s[i + 1] == '/'))
}

/// Stripping a comment-free text keeps it whole.
proof fn lemma_strip_identity_from(s: Seq<char>, i: int, acc: Seq<char>, lc: bool)
    requires
        comment_free(s, lc),
        0 <= i <= s.len(),
    ensures
        c_strip_from(s, i, false, lc, acc) == (acc + s.skip(i), false),
    decreases s.len() - i,
{
    if i >= s.len() {
        assert(acc + s.skip(i) =~= acc);
    } else {
        if s[i] == '/' && i + 1 < s.len() {
            assert(!(s[i] == '/' && s[i + 1] == '*'));
        }
        lemma_strip_identity_from(s, i + 1, acc.push(s[i]), lc);
        assert(acc.push(s[i]) + s.skip(i + 1) =~= acc + s.skip(i));
    }
}

/// Stripping a comment-free text keeps it whole.
pub proof fn lemma_strip_identity(s: Seq<char>, lc: bool)
    requires
        comment_free(s, lc),
    ensures
        c_strip(s, false, lc) == (s, false),
{
    lemma_strip_identity_from(s, 0, Seq::empty(), lc);
    assert(Seq::<char>::empty() + s.skip(0) =~= s);
}

/// With line comments recognized, the stripped text opens no comment: a
/// kept `/` is never followed by `/` or `*`.
proof fn lemma_strip_output_free_from(s: Seq<char>, i: int, bc: bool, acc: Seq<char>)
    requires
        0 <= i,
        comment_free(acc, true),
        !bc && acc.len() > 0 && acc.last() == '/' && i < s.len() ==> s[i] != '/' && s[i] != '*',
        bc ==> !(acc.len() > 0 && acc.last() == '/'),
    ensures
        comment_free(c_strip_from(s, i, bc, true, acc).0, true),
    decreases s.len() - i,
{
    if i >= s.len() {
    } else if bc {
        if s[i] == '*' && i + 1 < s.len() && s[i + 1] == '/' {
            lemma_strip_output_free_from(s, i + 2, false, acc);
        } else {
            lemma_strip_output_free_from(s, i + 1, true, acc);
        }
    } else if s[i] == '/' && i + 1 < s.len() && s[i + 1] == '*' {
        lemma_strip_output_free_from(s, i + 2, true, acc);
    } else if s[i] == '/' && i + 1 < s.len() && s[i + 1] == '/' {
    } else {
        let acc2 = acc.push(s[i]);
        assert forall|q: int|
            0 <= q < acc2.len() - 1 implies !((acc2[q] == '/' && #[trigger] acc2[q + 1] == '*') || (
        acc2[q] == '/' && acc2[q + 1] == '/')) by {
            if q < acc.len() - 1 {
                assert(acc2[q] == acc[q] && acc2[q + 1] == acc[q + 1]);
            } else {
                assert(acc2[q + 1] == s[i]);
            }
        }
        lemma_strip_output_free_from(s, i + 1, false, acc2);
    }
}

/// The stripped text of any line opens no comment, when line comments are
/// recognized.
pub proof fn lemma_strip_output_free(s: Seq<char>, bc: bool)
    ensures
        comment_free(c_strip(s, bc, true).0, true),
{
    lemma_strip_output_free_from(s, 0, bc, Seq::empty());
}

/// A contiguous piece of a comment-free text is comment-free.
pub proof fn lemma_comment_free_subrange(s: Seq<char>, lo: int, hi: int, lc: bool)
    requires
        comment_free(s, lc),
        0 <= lo <= hi <= s.len(),
    ensures
        comment_free(s.subrange(lo, hi), lc),
{
    let t = s.subrange(lo, hi);
    assert forall|i: int|
        0 <= i < t.len() - 1 implies !((t[i] == '/' && #[trigger] t[i + 1] == '*') || (lc && t[i]
        == '/' && t[i + 1] == '/')) by {
        assert(t[i] == s[lo + i] && t[i + 1] == s[lo + i + 1]);
    }
}

/// The trimmed, stripped text of a line is comment-free and strips to
/// itself: the key step of cleaning idempotence for the C-style cleaners.
pub proof fn lemma_stripped_trimmed_fixed(line: Seq<char>, bc: bool)
    ensures
        c_strip(trim_spec(c_strip(line, bc, true).0), false, true) == (
            trim_spec(c_strip(line, bc, true).0),
            false,
        ),
        trim_spec(trim_spec(c_strip(line, bc, true).0)) == trim_spec(c_strip(line, bc, true).0),
{
    let stripped = c_strip(line, bc, true).0;
    let t = trim_spec(stripped);
    lemma_strip_output_free(line, bc);
    crate::text::lemma_trim_is_subrange(stripped);
    let lo = choose|lo: int|
        0 <= lo && lo + t.len() <= stripped.len() && t =~= #[trigger] stripped.subrange(
            lo,
            lo + t.len(),
        );
    lemma_comment_free_subrange(stripped, lo, lo + t.len() as int, true);
    assert(comment_free(t, true));
    lemma_strip_identity(t, true);
    crate::text::lemma_trim_idempotent(stripped);
}

} // verus!
