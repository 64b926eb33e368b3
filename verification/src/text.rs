//! Character-level text helpers shared by the line cleaners.
//!
//! Lines are handled as vectors of characters; every helper carries an exact
//! specification over the corresponding `Seq<char>`.

use vstd::prelude::*;

verus! {

use vstd::string::StrSliceExecFns;

/// The Unicode `White_Space` characters, as `str::trim` and
/// `char::is_whitespace` recognize them.
pub open spec fn is_space(c: char) -> bool {
    ||| c == ' '
    ||| c == '\t'
    ||| c == '\n'
    ||| c == '\r'
    ||| c == '\u{0b}'
    ||| c == '\u{0c}'
    ||| c == '\u{85}'
    ||| c == '\u{a0}'
    ||| c == '\u{1680}'
    ||| (0x2000 <= c as u32 && c as u32 <= 0x200a)
    ||| c == '\u{2028}'
    ||| c == '\u{2029}'
    ||| c == '\u{202f}'
    ||| c == '\u{205f}'
    ||| c == '\u{3000}'
}

/// Decide whether a character is whitespace.
pub fn is_space_char(c: char) -> (r: bool)
    ensures
        r == is_space(c),
{
    let u = c as u32;
    u == 0x20 || (0x09 <= u && u <= 0x0d) || u == 0x85 || u == 0xa0 || u == 0x1680 || (0x2000 <= u
        && u <= 0x200a) || u == 0x2028 || u == 0x2029 || u == 0x202f || u == 0x205f || u == 0x3000
}

/// A sequence with its leading whitespace removed.
pub open spec fn trim_start_spec(s: Seq<char>) -> Seq<char>
    decreases s.len(),
{
    if s.len() == 0 {
        s
    } else if is_space(s[0]) {
        trim_start_spec(s.drop_first())
    } else {
        s
    }
}

/// A sequence with its trailing whitespace removed.
pub open spec fn trim_end_spec(s: Seq<char>) -> Seq<char>
    decreases s.len(),
{
    if s.len() == 0 {
        s
    } else if is_space(s.last()) {
        trim_end_spec(s.drop_last())
    } else {
        s
    }
}

/// A sequence with whitespace removed from both ends, as `str::trim`.
pub open spec fn trim_spec(s: Seq<char>) -> Seq<char> {
    trim_end_spec(trim_start_spec(s))
}

/// Leading whitespace up to position `lo` reduces `trim_start_spec` to the
/// suffix from `lo`.
pub proof fn lemma_trim_start_at(s: Seq<char>, lo: int)
    requires
        0 <= lo <= s.len(),
        forall|k: int| 0 <= k < lo ==> is_space(s[k]),
        lo == s.len() || !is_space(s[lo]),
    ensures
        trim_start_spec(s) =~= s.subrange(lo, s.len() as int),
    decreases lo,
{
    if lo == 0 {
        if s.len() > 0 {
            assert(!is_space(s[0]));
        }
        assert(trim_start_spec(s) =~= s.subrange(0, s.len() as int));
    } else {
        assert(is_space(s[0]));
        let t = s.drop_first();
        assert(forall|k: int| 0 <= k < lo - 1 ==> is_space(#[trigger] t[k]));
        lemma_trim_start_at(t, lo - 1);
        assert(t.subrange(lo - 1, t.len() as int) =~= s.subrange(lo, s.len() as int));
    }
}

/// Trailing whitespace after position `hi` reduces `trim_end_spec` to the
/// prefix up to and including `hi`.
proof fn lemma_trim_end_at(s: Seq<char>, hi: int)
    requires
        -1 <= hi < s.len(),
        forall|k: int| hi < k < s.len() ==> is_space(s[k]),
        hi == -1 || !is_space(s[hi]),
    ensures
        trim_end_spec(s) =~= s.subrange(0, hi + 1),
    decreases s.len() - hi,
{
    if s.len() == 0 {
        assert(trim_end_spec(s) =~= s.subrange(0, hi + 1));
    } else if hi == s.len() - 1 {
        assert(!is_space(s.last()));
        assert(trim_end_spec(s) =~= s.subrange(0, hi + 1));
    } else {
        assert(is_space(s.last()));
        let t = s.drop_last();
        assert(forall|k: int| hi < k < t.len() ==> is_space(#[trigger] t[k]));
        lemma_trim_end_at(t, hi);
        assert(t.subrange(0, hi + 1) =~= s.subrange(0, hi + 1));
    }
}

/// A non-empty start-trimmed sequence begins with a non-blank character.
pub proof fn lemma_trim_start_head(s: Seq<char>)
    ensures
        trim_start_spec(s).len() > 0 ==> !is_space(trim_start_spec(s)[0]),
    decreases s.len(),
{
    if s.len() > 0 && is_space(s[0]) {
        lemma_trim_start_head(s.drop_first());
    }
}

/// A non-empty end-trimmed sequence ends with a non-blank character.
pub proof fn lemma_trim_end_last(s: Seq<char>)
    ensures
        trim_end_spec(s).len() > 0 ==> !is_space(trim_end_spec(s).last()),
    decreases s.len(),
{
    if s.len() > 0 && is_space(s.last()) {
        lemma_trim_end_last(s.drop_last());
    }
}

/// Trimming the end keeps a prefix.
pub proof fn lemma_trim_end_is_prefix(s: Seq<char>)
    ensures
        trim_end_spec(s).len() <= s.len(),
        trim_end_spec(s) =~= s.subrange(0, trim_end_spec(s).len() as int),
    decreases s.len(),
{
    if s.len() > 0 && is_space(s.last()) {
        lemma_trim_end_is_prefix(s.drop_last());
        assert(s.drop_last().subrange(0, trim_end_spec(s.drop_last()).len() as int) =~= s.subrange(
            0,
            trim_end_spec(s.drop_last()).len() as int,
        ));
    }
}

/// Trimming the start keeps a suffix.
pub proof fn lemma_trim_start_is_suffix(s: Seq<char>)
    ensures
        exists|a: int| 0 <= a <= s.len() && trim_start_spec(s) =~= s.subrange(a, s.len() as int),
    decreases s.len(),
{
    if s.len() == 0 {
        assert(trim_start_spec(s) =~= s.subrange(0, 0));
    } else if is_space(s[0]) {
        lemma_trim_start_is_suffix(s.drop_first());
        let a = choose|a: int|
            0 <= a <= s.drop_first().len() && trim_start_spec(s.drop_first())
                =~= s.drop_first().subrange(a, s.drop_first().len() as int);
        assert(s.drop_first().subrange(a, s.drop_first().len() as int) =~= s.subrange(
            a + 1,
            s.len() as int,
        ));
        assert(trim_start_spec(s) =~= s.subrange(a + 1, s.len() as int));
    } else {
        assert(trim_start_spec(s) =~= s.subrange(0, s.len() as int));
    }
}

/// The trimmed text is a contiguous piece of the original.
pub proof fn lemma_trim_is_subrange(s: Seq<char>)
    ensures
        exists|lo: int|
            0 <= lo && lo + trim_spec(s).len() <= s.len() && trim_spec(s) =~= #[trigger] s.subrange(
                lo,
                lo + trim_spec(s).len(),
            ),
{
    lemma_trim_start_is_suffix(s);
    let a = choose|a: int|
        0 <= a <= s.len() && trim_start_spec(s) =~= s.subrange(a, s.len() as int);
    lemma_trim_end_is_prefix(trim_start_spec(s));
    let e = trim_spec(s);
    assert(e =~= s.subrange(a, a + e.len()));
}

/// Trimming removes exactly a blank prefix and a blank suffix: the trimmed
/// text sits at `lo`, with only whitespace before and after it.
pub proof fn lemma_trim_decomposition(s: Seq<char>)
    ensures
        exists|lo: int|
            {
                &&& 0 <= lo
                &&& lo + trim_spec(s).len() <= s.len()
                &&& trim_spec(s) =~= #[trigger] s.subrange(lo, lo + trim_spec(s).len())
                &&& forall|k: int| 0 <= k < lo ==> is_space(s[k])
                &&& forall|k: int| lo + trim_spec(s).len() <= k < s.len() ==> is_space(s[k])
            },
{
    lemma_trim_start_blanks(s);
    let a = choose|a: int|
        0 <= a <= s.len() && trim_start_spec(s) =~= s.subrange(a, s.len() as int) && forall|k: int|
            0 <= k < a ==> is_space(#[trigger] s[k]);
    let u = trim_start_spec(s);
    let t = trim_spec(s);
    lemma_trim_end_is_prefix(u);
    lemma_trim_end_blanks(u);
    assert(t =~= s.subrange(a, a + t.len()));
    assert forall|k: int| a + t.len() <= k < s.len() implies is_space(s[k]) by {
        assert(s[k] == u[k - a]);
    }
    assert(0 <= a && a + trim_spec(s).len() <= s.len() && trim_spec(s) =~= s.subrange(
        a,
        a + trim_spec(s).len(),
    ) && (forall|k: int| 0 <= k < a ==> is_space(s[k])) && (forall|k: int|
        a + trim_spec(s).len() <= k < s.len() ==> is_space(s[k])));
}

/// Trimming the start removes exactly a blank prefix.
pub proof fn lemma_trim_start_blanks(s: Seq<char>)
    ensures
        exists|a: int|
            0 <= a <= s.len() && trim_start_spec(s) =~= #[trigger] s.subrange(a, s.len() as int)
                && forall|k: int| 0 <= k < a ==> is_space(s[k]),
    decreases s.len(),
{
    if s.len() == 0 {
        assert(trim_start_spec(s) =~= s.subrange(0, 0));
        assert(0 <= 0 <= s.len() && trim_start_spec(s) =~= s.subrange(0, s.len() as int)
            && forall|k: int| 0 <= k < 0 ==> is_space(s[k]));
    } else if is_space(s[0]) {
        lemma_trim_start_blanks(s.drop_first());
        let a = choose|a: int|
            0 <= a <= s.drop_first().len() && trim_start_spec(s.drop_first())
                =~= s.drop_first().subrange(a, s.drop_first().len() as int) && forall|k: int|
                0 <= k < a ==> is_space(#[trigger] s.drop_first()[k]);
        assert(s.drop_first().subrange(a, s.drop_first().len() as int) =~= s.subrange(
            a + 1,
            s.len() as int,
        ));
        assert forall|k: int| 0 <= k < a + 1 implies is_space(s[k]) by {
            if k > 0 {
                assert(s[k] == s.drop_first()[k - 1]);
            }
        }
        assert(0 <= a + 1 <= s.len() && trim_start_spec(s) =~= s.subrange(a + 1, s.len() as int)
            && forall|k: int| 0 <= k < a + 1 ==> is_space(s[k]));
    } else {
        assert(trim_start_spec(s) =~= s.subrange(0, s.len() as int));
        assert(0 <= 0 <= s.len() && trim_start_spec(s) =~= s.subrange(0, s.len() as int)
            && forall|k: int| 0 <= k < 0 ==> is_space(s[k]));
    }
}

/// Trimming the end removes exactly a blank suffix.
pub proof fn lemma_trim_end_blanks(s: Seq<char>)
    ensures
        forall|k: int| trim_end_spec(s).len() <= k < s.len() ==> is_space(#[trigger] s[k]),
    decreases s.len(),
{
    if s.len() > 0 && is_space(s.last()) {
        lemma_trim_end_blanks(s.drop_last());
        assert forall|k: int| trim_end_spec(s).len() <= k < s.len() implies is_space(s[k]) by {
            if k < s.len() - 1 {
                assert(s[k] == s.drop_last()[k]);
            }
        }
    }
}

/// An occurrence inside a piece of a text is an occurrence in the text.
pub proof fn lemma_matches_in_subrange(s: Seq<char>, a: int, b: int, p: Seq<char>, j: int)
    requires
        0 <= a <= b <= s.len(),
        matches_at(s.subrange(a, b), p, j),
    ensures
        matches_at(s, p, a + j),
{
    assert(s.subrange(a + j, a + j + p.len()) =~= s.subrange(a, b).subrange(j, j + p.len()));
}

/// Every position of `find_pat`'s answer is the first: nothing matches
/// earlier, and nothing matches at all when it finds nothing.
pub proof fn lemma_find_pat_complete(s: Seq<char>, p: Seq<char>)
    ensures
        match find_pat(s, p) {
            Option::Some(i) => 0 <= i && forall|j: int| 0 <= j < i ==> !matches_at(s, p, j),
            Option::None => forall|j: int| !matches_at(s, p, j),
        },
    decreases s.len(),
{
    if !matches_at(s, p, 0) && s.len() > 0 {
        let t = s.drop_first();
        lemma_find_pat_complete(t, p);
        assert forall|j: int| 1 <= j implies (matches_at(s, p, j) ==> matches_at(t, p, j - 1)) by {
            if matches_at(s, p, j) {
                assert(t.subrange(j - 1, j - 1 + p.len()) =~= s.subrange(j, j + p.len()));
            }
        }
    }
}

/// Counting splits over a cut point.
pub proof fn lemma_count_char_split(s: Seq<char>, a: int, b: int, c: char)
    requires
        0 <= a <= b <= s.len(),
    ensures
        count_char(s.take(b), c) == count_char(s.take(a), c) + count_char(s.subrange(a, b), c),
    decreases b - a,
{
    if a == b {
        assert(s.take(a) =~= s.take(b));
        assert(s.subrange(a, b) =~= Seq::<char>::empty());
    } else {
        lemma_count_char_split(s, a, b - 1, c);
        assert(s.take(b).drop_last() =~= s.take(b - 1));
        assert(s.subrange(a, b).drop_last() =~= s.subrange(a, b - 1));
        assert(s.take(b).last() == s[b - 1] && s.subrange(a, b).last() == s[b - 1]);
    }
}

/// A prefix without the character counts zero of it.
pub proof fn lemma_count_char_zero(s: Seq<char>, c: char)
    requires
        forall|k: int| 0 <= k < s.len() ==> s[k] != c,
    ensures
        count_char(s, c) == 0,
    decreases s.len(),
{
    if s.len() > 0 {
        lemma_count_char_zero(s.drop_last(), c);
    }
}

/// Trimming an already-trimmed sequence changes nothing.
pub proof fn lemma_trim_idempotent(s: Seq<char>)
    ensures
        trim_spec(trim_spec(s)) == trim_spec(s),
{
    let u = trim_start_spec(s);
    let t = trim_spec(s);
    if t.len() == 0 {
        assert(trim_start_spec(t) =~= t);
        assert(trim_end_spec(trim_start_spec(t)) =~= t);
    } else {
        lemma_trim_end_is_prefix(u);
        lemma_trim_start_head(s);
        assert(t[0] == u[0]);
        assert(!is_space(t[0]));
        assert(trim_start_spec(t) == t);
        lemma_trim_end_last(u);
        assert(trim_end_spec(t) == t);
    }
}

/// Remove leading and trailing whitespace from a character vector.
pub fn trim_chars(v: &Vec<char>) -> (r: Vec<char>)
    ensures
        r@ == trim_spec(v@),
{
    let n = v.len();
    let mut lo: usize = 0;
    while lo < n && is_space_char(v[lo])
        invariant
            0 <= lo <= n == v@.len(),
            forall|k: int| 0 <= k < lo ==> is_space(v@[k]),
        decreases n - lo,
    {
        lo = lo + 1;
    }
    proof {
        lemma_trim_start_at(v@, lo as int);
    }
    if lo == n {
        let r: Vec<char> = Vec::new();
        proof {
            assert(trim_start_spec(v@) =~= Seq::<char>::empty());
            assert(trim_spec(v@) =~= Seq::<char>::empty());
        }
        return r;
    }
    let mut hi: usize = n - 1;
    while hi > lo && is_space_char(v[hi])
        invariant
            lo <= hi < n == v@.len(),
            forall|k: int| hi < k < n ==> is_space(v@[k]),
        decreases hi,
    {
        hi = hi - 1;
    }
    // v[lo] is not whitespace, so the scan cannot stop on a space at lo.
    let ghost t = trim_start_spec(v@);
    proof {
        assert(!is_space(v@[lo as int]));
        assert(!is_space(v@[hi as int]));
        assert(t =~= v@.subrange(lo as int, n as int));
        assert(forall|k: int| hi - lo < k < t.len() ==> is_space(#[trigger] t[k]));
        lemma_trim_end_at(t, hi - lo as int);
    }
    let mut r: Vec<char> = Vec::new();
    let mut i: usize = lo;
    while i <= hi
        invariant
            lo <= i <= hi + 1,
            hi < n == v@.len(),
            r@ =~= v@.subrange(lo as int, i as int),
        decreases hi + 1 - i,
    {
        r.push(v[i]);
        i = i + 1;
    }
    proof {
        assert(r@ =~= t.subrange(0, hi - lo + 1));
    }
    r
}

/// Remove leading whitespace from a character vector.
pub fn trim_start_chars(v: &Vec<char>) -> (r: Vec<char>)
    ensures
        r@ == trim_start_spec(v@),
{
    let n = v.len();
    let mut lo: usize = 0;
    while lo < n && is_space_char(v[lo])
        invariant
            0 <= lo <= n == v@.len(),
            forall|k: int| 0 <= k < lo ==> is_space(v@[k]),
        decreases n - lo,
    {
        lo = lo + 1;
    }
    proof {
        lemma_trim_start_at(v@, lo as int);
    }
    subrange_chars(v, lo, n)
}

/// Remove trailing whitespace from a character vector.
pub fn trim_end_chars(v: &Vec<char>) -> (r: Vec<char>)
    ensures
        r@ == trim_end_spec(v@),
{
    let n = v.len();
    let mut hi: usize = n;
    while hi > 0 && is_space_char(v[hi - 1])
        invariant
            0 <= hi <= n == v@.len(),
            forall|k: int| hi <= k < n ==> is_space(v@[k]),
        decreases hi,
    {
        hi = hi - 1;
    }
    proof {
        lemma_trim_end_at(v@, hi - 1);
    }
    subrange_chars(v, 0, hi)
}

/// `p` is a prefix of `s`.
pub open spec fn has_prefix(s: Seq<char>, p: Seq<char>) -> bool {
    p.len() <= s.len() && s.take(p.len() as int) == p
}

/// `p` is a suffix of `s`.
pub open spec fn has_suffix(s: Seq<char>, p: Seq<char>) -> bool {
    p.len() <= s.len() && s.skip(s.len() - p.len()) == p
}

/// Decide whether the characters `v` end with the pattern `p`.
pub fn ends_with_str(v: &Vec<char>, p: &str) -> (r: bool)
    ensures
        r == has_suffix(v@, p@),
{
    let n = v.len();
    let plen = p.unicode_len();
    if plen > n {
        return false;
    }
    let r = matches_at_exec(v, p, n - plen);
    proof {
        assert(v@.skip(n - plen) =~= v@.subrange(n - plen, n as int));
    }
    r
}

/// `p` occurs in `s` starting at position `i`.
pub open spec fn matches_at(s: Seq<char>, p: Seq<char>, i: int) -> bool {
    0 <= i && i + p.len() <= s.len() && s.subrange(i, i + p.len()) == p
}

/// `p` occurs somewhere in `s`.
pub open spec fn contains_seq(s: Seq<char>, p: Seq<char>) -> bool {
    exists|i: int| matches_at(s, p, i)
}

/// Decide whether the characters `v` start with the pattern `p`.
pub fn starts_with_str(v: &Vec<char>, p: &str) -> (r: bool)
    ensures
        r == has_prefix(v@, p@),
{
    let plen = p.unicode_len();
    if plen > v.len() {
        return false;
    }
    let mut i: usize = 0;
    while i < plen
        invariant
            0 <= i <= plen == p@.len(),
            plen <= v@.len(),
            forall|k: int| 0 <= k < i ==> v@[k] == p@[k],
        decreases plen - i,
    {
        if v[i] != p.get_char(i) {
            proof {
                assert(v@.take(plen as int)[i as int] != p@[i as int]);
            }
            return false;
        }
        i = i + 1;
    }
    proof {
        assert(v@.take(plen as int) =~= p@);
    }
    true
}

/// Decide whether `p` occurs in `v` at position `i`.
pub fn matches_at_exec(v: &Vec<char>, p: &str, i: usize) -> (r: bool)
    requires
        i <= v@.len(),
    ensures
        r == matches_at(v@, p@, i as int),
{
    let n = v.len();
    let plen = p.unicode_len();
    if plen > n - i {
        return false;
    }
    let mut k: usize = 0;
    while k < plen
        invariant
            0 <= k <= plen == p@.len(),
            i + plen <= n == v@.len(),
            forall|j: int| 0 <= j < k ==> v@[i + j] == p@[j],
        decreases plen - k,
    {
        if v[i + k] != p.get_char(k) {
            proof {
                assert(v@.subrange(i as int, i + plen)[k as int] != p@[k as int]);
            }
            return false;
        }
        k = k + 1;
    }
    proof {
        assert(v@.subrange(i as int, i + plen) =~= p@);
    }
    true
}

/// Find the first occurrence of `p` in `v`.
pub fn find_str(v: &Vec<char>, p: &str) -> (r: Option<usize>)
    ensures
        match r {
            Some(i) => matches_at(v@, p@, i as int) && forall|j: int|
                0 <= j < i ==> !matches_at(v@, p@, j),
            None => forall|j: int| !matches_at(v@, p@, j),
        },
{
    let n = v.len();
    let mut i: usize = 0;
    while i < n
        invariant
            0 <= i <= n == v@.len(),
            forall|j: int| 0 <= j < i ==> !matches_at(v@, p@, j),
        decreases n - i,
    {
        if matches_at_exec(v, p, i) {
            return Some(i);
        }
        i = i + 1;
    }
    if matches_at_exec(v, p, n) {
        return Some(n);
    }
    proof {
        assert(forall|j: int| matches_at(v@, p@, j) ==> 0 <= j <= v@.len());
    }
    None
}

/// Decide whether `p` occurs anywhere in `v`.
pub fn contains_str(v: &Vec<char>, p: &str) -> (r: bool)
    ensures
        r == contains_seq(v@, p@),
{
    match find_str(v, p) {
        Some(_) => true,
        None => {
            proof {
                assert(forall|j: int| !matches_at(v@, p@, j));
            }
            false
        },
    }
}

/// Find the first occurrence of the character `c` in `v`.
pub fn find_char(v: &Vec<char>, c: char) -> (r: Option<usize>)
    ensures
        match r {
            Some(i) => i < v@.len() && v@[i as int] == c && forall|j: int|
                0 <= j < i ==> v@[j] != c,
            None => forall|j: int| 0 <= j < v@.len() ==> v@[j] != c,
        },
{
    let mut i: usize = 0;
    while i < v.len()
        invariant
            0 <= i <= v@.len(),
            forall|j: int| 0 <= j < i ==> v@[j] != c,
        decreases v@.len() - i,
    {
        if v[i] == c {
            return Some(i);
        }
        i = i + 1;
    }
    None
}

/// Find the last occurrence of the character `c` in `v`.
pub fn rfind_char(v: &Vec<char>, c: char) -> (r: Option<usize>)
    ensures
        match r {
            Some(i) => i < v@.len() && v@[i as int] == c && forall|j: int|
                i < j < v@.len() ==> v@[j] != c,
            None => forall|j: int| 0 <= j < v@.len() ==> v@[j] != c,
        },
{
    let mut i: usize = v.len();
    while i > 0
        invariant
            0 <= i <= v@.len(),
            forall|j: int| i <= j < v@.len() ==> v@[j] != c,
        decreases i,
    {
        i = i - 1;
        if v[i] == c {
            return Some(i);
        }
    }
    None
}

/// Whether the first non-blank character of `v` is `c`.
pub open spec fn trimmed_first_is(s: Seq<char>, c: char) -> bool {
    trim_start_spec(s).len() > 0 && trim_start_spec(s)[0] == c
}

/// Decide whether the first non-blank character of `v` is `c`.
pub fn trimmed_starts_char(v: &Vec<char>, c: char) -> (r: bool)
    ensures
        r == trimmed_first_is(v@, c),
{
    let n = v.len();
    let mut lo: usize = 0;
    while lo < n && is_space_char(v[lo])
        invariant
            0 <= lo <= n == v@.len(),
            forall|k: int| 0 <= k < lo ==> is_space(v@[k]),
        decreases n - lo,
    {
        lo = lo + 1;
    }
    proof {
        lemma_trim_start_at(v@, lo as int);
    }
    lo < n && v[lo] == c
}

/// Decide whether `v`, after leading whitespace, starts with the pattern `p`.
pub fn trimmed_starts_with(v: &Vec<char>, p: &str) -> (r: bool)
    ensures
        r == has_prefix(trim_start_spec(v@), p@),
{
    let n = v.len();
    let mut lo: usize = 0;
    while lo < n && is_space_char(v[lo])
        invariant
            0 <= lo <= n == v@.len(),
            forall|k: int| 0 <= k < lo ==> is_space(v@[k]),
        decreases n - lo,
    {
        lo = lo + 1;
    }
    proof {
        lemma_trim_start_at(v@, lo as int);
    }
    let r = matches_at_exec(v, p, lo);
    proof {
        if p@.len() + lo <= v@.len() {
            assert(trim_start_spec(v@).take(p@.len() as int) =~= v@.subrange(
                lo as int,
                lo + p@.len(),
            ));
        }
    }
    r
}

/// The prefix of `s` before the first occurrence of `c`; all of `s` when `c`
/// does not occur.
pub open spec fn take_before_char(s: Seq<char>, c: char) -> Seq<char>
    decreases s.len(),
{
    if s.len() == 0 {
        s
    } else if s[0] == c {
        Seq::empty()
    } else {
        seq![s[0]] + take_before_char(s.drop_first(), c)
    }
}

/// With the first `c` at position `i`, the prefix before it is `s.take(i)`.
pub proof fn lemma_take_before_char_at(s: Seq<char>, c: char, i: int)
    requires
        0 <= i < s.len(),
        s[i] == c,
        forall|j: int| 0 <= j < i ==> s[j] != c,
    ensures
        take_before_char(s, c) =~= s.take(i),
    decreases i,
{
    if i == 0 {
    } else {
        lemma_take_before_char_at(s.drop_first(), c, i - 1);
        assert(take_before_char(s, c) =~= seq![s[0]] + s.drop_first().take(i - 1));
    }
}

/// The prefix before the first `c` never contains `c`.
pub proof fn lemma_take_before_free(s: Seq<char>, c: char)
    ensures
        forall|j: int| 0 <= j < take_before_char(s, c).len() ==> take_before_char(s, c)[j] != c,
    decreases s.len(),
{
    if s.len() > 0 && s[0] != c {
        lemma_take_before_free(s.drop_first(), c);
        let t = take_before_char(s, c);
        let r = take_before_char(s.drop_first(), c);
        assert forall|j: int| 0 <= j < t.len() implies t[j] != c by {
            if j > 0 {
                assert(t[j] == r[j - 1]);
            }
        }
    }
}

/// The prefix before the first `c` is a `take`: everything before some
/// cut point, which holds `c` unless the text has none.
pub proof fn lemma_take_before_position(s: Seq<char>, c: char)
    ensures
        exists|p: int|
            {
                &&& 0 <= p <= s.len()
                &&& take_before_char(s, c) =~= #[trigger] s.take(p)
                &&& forall|k: int| 0 <= k < p ==> s[k] != c
                &&& (p < s.len() ==> s[p] == c)
            },
    decreases s.len(),
{
    if s.len() == 0 {
        assert(take_before_char(s, c) =~= s.take(0));
        assert(0 <= 0 <= s.len() && take_before_char(s, c) =~= s.take(0) && (forall|k: int|
            0 <= k < 0 ==> s[k] != c) && (0 < s.len() ==> s[0] == c));
    } else if s[0] == c {
        assert(take_before_char(s, c) =~= s.take(0));
        assert(0 <= 0 <= s.len() && take_before_char(s, c) =~= s.take(0) && (forall|k: int|
            0 <= k < 0 ==> s[k] != c) && (0 < s.len() ==> s[0] == c));
    } else {
        lemma_take_before_position(s.drop_first(), c);
        let q = choose|q: int|
            {
                &&& 0 <= q <= s.drop_first().len()
                &&& take_before_char(s.drop_first(), c) =~= #[trigger] s.drop_first().take(q)
                &&& forall|k: int| 0 <= k < q ==> s.drop_first()[k] != c
                &&& (q < s.drop_first().len() ==> s.drop_first()[q] == c)
            };
        assert(take_before_char(s, c) =~= seq![s[0]] + s.drop_first().take(q));
        assert(seq![s[0]] + s.drop_first().take(q) =~= s.take(q + 1));
        assert forall|k: int| 0 <= k < q + 1 implies s[k] != c by {
            if k > 0 {
                assert(s[k] == s.drop_first()[k - 1]);
            }
        }
        assert(0 <= q + 1 <= s.len() && take_before_char(s, c) =~= s.take(q + 1) && (forall|k: int|
            0 <= k < q + 1 ==> s[k] != c) && (q + 1 < s.len() ==> s[q + 1] == c));
    }
}

/// Without any `c`, the prefix before it is all of `s`.
pub proof fn lemma_take_before_char_none(s: Seq<char>, c: char)
    requires
        forall|j: int| 0 <= j < s.len() ==> s[j] != c,
    ensures
        take_before_char(s, c) =~= s,
    decreases s.len(),
{
    if s.len() > 0 {
        lemma_take_before_char_none(s.drop_first(), c);
        assert(take_before_char(s, c) =~= seq![s[0]] + s.drop_first());
    }
}

/// Copy the prefix of `v` before the first occurrence of `c`.
pub fn cut_at_char(v: &Vec<char>, c: char) -> (r: Vec<char>)
    ensures
        r@ == take_before_char(v@, c),
{
    match find_char(v, c) {
        Some(i) => {
            proof {
                lemma_take_before_char_at(v@, c, i as int);
            }
            let r = subrange_chars(v, 0, i);
            proof {
                assert(v@.subrange(0, i as int) =~= v@.take(i as int));
            }
            r
        },
        None => {
            proof {
                lemma_take_before_char_none(v@, c);
            }
            subrange_chars(v, 0, v.len())
        },
    }
}

/// `c` occurs in `s`.
pub open spec fn contains_char(s: Seq<char>, c: char) -> bool {
    exists|i: int| 0 <= i < s.len() && s[i] == c
}

/// Decide whether `c` occurs in `v`.
pub fn has_char(v: &Vec<char>, c: char) -> (r: bool)
    ensures
        r == contains_char(v@, c),
{
    match find_char(v, c) {
        Some(i) => true,
        None => false,
    }
}

/// The number of whitespace-separated words from position `i`, where
/// `in_word` says whether position `i` continues a word.
pub open spec fn word_count_from(s: Seq<char>, i: int, in_word: bool) -> int
    decreases s.len() - i,
{
    if i < 0 || i >= s.len() {
        0
    } else if is_space(s[i]) {
        word_count_from(s, i + 1, false)
    } else if in_word {
        word_count_from(s, i + 1, true)
    } else {
        1 + word_count_from(s, i + 1, true)
    }
}

/// The number of whitespace-separated words of `s`.
pub open spec fn word_count(s: Seq<char>) -> int {
    word_count_from(s, 0, false)
}

/// Count the whitespace-separated words of `v`.
pub fn count_words(v: &Vec<char>) -> (r: usize)
    ensures
        r == word_count(v@),
{
    let n = v.len();
    let mut count: usize = 0;
    let mut in_word = false;
    let mut i: usize = 0;
    while i < n
        invariant
            0 <= i <= n == v@.len(),
            count <= i,
            word_count(v@) == count + word_count_from(v@, i as int, in_word),
        decreases n - i,
    {
        if is_space_char(v[i]) {
            in_word = false;
        } else if !in_word {
            count = count + 1;
            in_word = true;
        }
        i = i + 1;
    }
    count
}

/// The prefix of `s` up to the first whitespace character.
pub open spec fn take_until_space(s: Seq<char>) -> Seq<char>
    decreases s.len(),
{
    if s.len() == 0 {
        s
    } else if is_space(s[0]) {
        Seq::empty()
    } else {
        seq![s[0]] + take_until_space(s.drop_first())
    }
}

/// The first whitespace-separated word of `s`; empty when there is none.
pub open spec fn first_word(s: Seq<char>) -> Seq<char> {
    take_until_space(trim_start_spec(s))
}

/// With the first space of `s` at position `i`, the word is `s.take(i)`.
pub proof fn lemma_take_until_space_at(s: Seq<char>, i: int)
    requires
        0 <= i <= s.len(),
        forall|j: int| 0 <= j < i ==> !is_space(s[j]),
        i == s.len() || is_space(s[i]),
    ensures
        take_until_space(s) =~= s.take(i),
    decreases i,
{
    if i == 0 {
    } else {
        lemma_take_until_space_at(s.drop_first(), i - 1);
        assert(take_until_space(s) =~= seq![s[0]] + s.drop_first().take(i - 1));
    }
}

/// Extract the first whitespace-separated word of `v`.
pub fn get_first_word(v: &Vec<char>) -> (r: Vec<char>)
    ensures
        r@ == first_word(v@),
{
    let n = v.len();
    let mut lo: usize = 0;
    while lo < n && is_space_char(v[lo])
        invariant
            0 <= lo <= n == v@.len(),
            forall|k: int| 0 <= k < lo ==> is_space(v@[k]),
        decreases n - lo,
    {
        lo = lo + 1;
    }
    proof {
        lemma_trim_start_at(v@, lo as int);
    }
    let mut hi: usize = lo;
    while hi < n && !is_space_char(v[hi])
        invariant
            lo <= hi <= n == v@.len(),
            forall|k: int| lo <= k < hi ==> !is_space(v@[k]),
        decreases n - hi,
    {
        hi = hi + 1;
    }
    let ghost t = trim_start_spec(v@);
    proof {
        assert(forall|j: int| 0 <= j < hi - lo ==> !is_space(#[trigger] t[j]));
        lemma_take_until_space_at(t, hi - lo as int);
    }
    let r = subrange_chars(v, lo, hi);
    proof {
        assert(v@.subrange(lo as int, hi as int) =~= t.take(hi - lo as int));
    }
    r
}

/// Compare two strings for equality of their characters.
pub fn str_eq(a: &str, b: &str) -> (r: bool)
    ensures
        r == (a@ == b@),
{
    let an = a.unicode_len();
    let bn = b.unicode_len();
    if an != bn {
        proof {
            assert(a@ != b@);
        }
        return false;
    }
    let mut i: usize = 0;
    while i < an
        invariant
            0 <= i <= an == a@.len(),
            bn == b@.len(),
            an == bn,
            forall|k: int| 0 <= k < i ==> a@[k] == b@[k],
        decreases an - i,
    {
        if a.get_char(i) != b.get_char(i) {
            return false;
        }
        i = i + 1;
    }
    proof {
        assert(a@ =~= b@);
    }
    true
}

/// Compare a character vector against a string pattern for equality.
pub fn chars_eq_str(v: &Vec<char>, p: &str) -> (r: bool)
    ensures
        r == (v@ == p@),
{
    let plen = p.unicode_len();
    if plen != v.len() {
        proof {
            assert(v@ != p@);
        }
        return false;
    }
    let r = matches_at_exec(v, p, 0);
    proof {
        assert(v@.subrange(0, plen as int) =~= v@);
    }
    r
}

/// The first position where `p` occurs in `s`, if any.
pub open spec fn find_pat(s: Seq<char>, p: Seq<char>) -> Option<int>
    decreases s.len(),
{
    if matches_at(s, p, 0) {
        Option::Some(0)
    } else if s.len() == 0 {
        Option::None
    } else {
        match find_pat(s.drop_first(), p) {
            Option::Some(i) => Option::Some(i + 1),
            Option::None => Option::None,
        }
    }
}

/// A first occurrence at `i` pins `find_pat` down.
pub proof fn lemma_find_pat_some(s: Seq<char>, p: Seq<char>, i: int)
    requires
        matches_at(s, p, i),
        forall|j: int| 0 <= j < i ==> !matches_at(s, p, j),
    ensures
        find_pat(s, p) == Option::Some(i),
    decreases i,
{
    if i == 0 {
    } else {
        assert(!matches_at(s, p, 0));
        assert(s.len() > 0);
        let t = s.drop_first();
        assert(t.subrange(i - 1, i - 1 + p.len()) =~= s.subrange(i, i + p.len()));
        assert(matches_at(t, p, i - 1));
        assert forall|j: int| 0 <= j < i - 1 implies !matches_at(t, p, j) by {
            if matches_at(t, p, j) {
                assert(s.subrange(j + 1, j + 1 + p.len()) =~= t.subrange(j, j + p.len()));
                assert(matches_at(s, p, j + 1));
            }
        }
        lemma_find_pat_some(t, p, i - 1);
    }
}

/// No occurrence anywhere means `find_pat` finds nothing.
pub proof fn lemma_find_pat_none(s: Seq<char>, p: Seq<char>)
    requires
        forall|j: int| !matches_at(s, p, j),
    ensures
        find_pat(s, p) is None,
    decreases s.len(),
{
    if s.len() > 0 {
        let t = s.drop_first();
        assert forall|j: int| !matches_at(t, p, j) by {
            if matches_at(t, p, j) {
                assert(s.subrange(j + 1, j + 1 + p.len()) =~= t.subrange(j, j + p.len()));
                assert(matches_at(s, p, j + 1));
            }
        }
        lemma_find_pat_none(t, p);
    }
}

/// A found position is a real occurrence.
pub proof fn lemma_find_pat_matches(s: Seq<char>, p: Seq<char>)
    ensures
        match find_pat(s, p) {
            Option::Some(i) => matches_at(s, p, i),
            Option::None => true,
        },
    decreases s.len(),
{
    if !matches_at(s, p, 0) && s.len() > 0 {
        let t = s.drop_first();
        lemma_find_pat_matches(t, p);
        if find_pat(t, p) is Some {
            let i = find_pat(t, p)->Some_0;
            assert(s.subrange(i + 1, i + 1 + p.len()) =~= t.subrange(i, i + p.len()));
        }
    }
}

/// Find the first occurrence of a pattern, against `find_pat`.
pub fn find_pattern(v: &Vec<char>, p: &str) -> (r: Option<usize>)
    ensures
        match r {
            Some(i) => find_pat(v@, p@) == Option::Some(i as int),
            None => find_pat(v@, p@) is None,
        },
{
    match find_str(v, p) {
        Some(i) => {
            proof {
                lemma_find_pat_some(v@, p@, i as int);
            }
            Some(i)
        },
        None => {
            proof {
                lemma_find_pat_none(v@, p@);
            }
            None
        },
    }
}

/// The last position of the character `c` in `s`, if any.
pub open spec fn rfind_char_sp(s: Seq<char>, c: char) -> Option<int>
    decreases s.len(),
{
    if s.len() == 0 {
        Option::None
    } else if s.last() == c {
        Option::Some(s.len() - 1)
    } else {
        rfind_char_sp(s.drop_last(), c)
    }
}

/// A last occurrence at `i` pins `rfind_char_sp` down.
pub proof fn lemma_rfind_char_some(s: Seq<char>, c: char, i: int)
    requires
        0 <= i < s.len(),
        s[i] == c,
        forall|j: int| i < j < s.len() ==> s[j] != c,
    ensures
        rfind_char_sp(s, c) == Option::Some(i),
    decreases s.len(),
{
    if i < s.len() - 1 {
        lemma_rfind_char_some(s.drop_last(), c, i);
    }
}

/// No occurrence means `rfind_char_sp` finds nothing.
pub proof fn lemma_rfind_char_none(s: Seq<char>, c: char)
    requires
        forall|j: int| 0 <= j < s.len() ==> s[j] != c,
    ensures
        rfind_char_sp(s, c) is None,
    decreases s.len(),
{
    if s.len() > 0 {
        lemma_rfind_char_none(s.drop_last(), c);
    }
}

/// A found last position is a real occurrence.
pub proof fn lemma_rfind_char_matches(s: Seq<char>, c: char)
    ensures
        match rfind_char_sp(s, c) {
            Option::Some(i) => 0 <= i < s.len() && s[i] == c,
            Option::None => true,
        },
    decreases s.len(),
{
    if s.len() > 0 && s.last() != c {
        lemma_rfind_char_matches(s.drop_last(), c);
    }
}

/// Find the last occurrence of a character, against `rfind_char_sp`.
pub fn rfind_char_exact(v: &Vec<char>, c: char) -> (r: Option<usize>)
    ensures
        match r {
            Some(i) => rfind_char_sp(v@, c) == Option::Some(i as int),
            None => rfind_char_sp(v@, c) is None,
        },
{
    match rfind_char(v, c) {
        Some(i) => {
            proof {
                lemma_rfind_char_some(v@, c, i as int);
            }
            Some(i)
        },
        None => {
            proof {
                lemma_rfind_char_none(v@, c);
            }
            None
        },
    }
}

/// The number of occurrences of `c` in `s`.
pub open spec fn count_char(s: Seq<char>, c: char) -> int
    decreases s.len(),
{
    if s.len() == 0 {
        0
    } else {
        count_char(s.drop_last(), c) + if s.last() == c {
            1int
        } else {
            0int
        }
    }
}

/// Count the occurrences of `c` among the first `end` characters of `v`.
pub fn count_char_upto(v: &Vec<char>, c: char, end: usize) -> (r: usize)
    requires
        end <= v@.len(),
    ensures
        r == count_char(v@.take(end as int), c),
{
    let mut count: usize = 0;
    let mut i: usize = 0;
    while i < end
        invariant
            0 <= i <= end <= v@.len(),
            count == count_char(v@.take(i as int), c),
            count <= i,
        decreases end - i,
    {
        proof {
            assert(v@.take(i + 1).drop_last() =~= v@.take(i as int));
        }
        if v[i] == c {
            count = count + 1;
        }
        i = i + 1;
    }
    count
}

/// Copy a subrange of `v` into a new vector.
pub fn subrange_chars(v: &Vec<char>, lo: usize, hi: usize) -> (r: Vec<char>)
    requires
        lo <= hi <= v@.len(),
    ensures
        r@ == v@.subrange(lo as int, hi as int),
{
    let mut r: Vec<char> = Vec::new();
    let mut i: usize = lo;
    while i < hi
        invariant
            lo <= i <= hi <= v@.len(),
            r@ =~= v@.subrange(lo as int, i as int),
        decreases hi - i,
    {
        r.push(v[i]);
        i = i + 1;
    }
    proof {
        assert(r@ =~= v@.subrange(lo as int, hi as int));
    }
    r
}

/// The characters of a string, in order.
pub fn str_chars(s: &str) -> (v: Vec<char>)
    ensures
        v@ == s@,
{
    let n = s.unicode_len();
    let mut v: Vec<char> = Vec::new();
    let mut i: usize = 0;
    while i < n
        invariant
            0 <= i <= n == s@.len(),
            v@ =~= s@.take(i as int),
        decreases n - i,
    {
        v.push(s.get_char(i));
        i = i + 1;
    }
    proof {
        assert(v@ =~= s@);
    }
    v
}

/// Relies on `String: FromIterator<char>`: collecting characters yields the
/// string of exactly those characters, in order.
#[verifier::external_body]
pub(crate) fn chars_to_string(v: &Vec<char>) -> (s: String)
    ensures
        s@ == v@,
{
    v.iter().collect()
}

/// What `char::is_alphabetic` returns; the classification depends on the
/// character alone.
pub uninterp spec fn is_alpha(c: char) -> bool;

/// Relies on `char::is_alphabetic`: the Unicode `Alphabetic` property of the
/// character.
#[verifier::external_body]
pub(crate) fn is_alpha_char(c: char) -> (r: bool)
    ensures
        r == is_alpha(c),
{
    c.is_alphabetic()
}

/// What `char::is_uppercase` returns; the classification depends on the
/// character alone.
pub uninterp spec fn is_upper(c: char) -> bool;

/// Relies on `char::is_uppercase`: the Unicode `Uppercase` property of the
/// character.
#[verifier::external_body]
pub(crate) fn is_upper_char(c: char) -> (r: bool)
    ensures
        r == is_upper(c),
{
    c.is_uppercase()
}

/// Some character of `s` is alphabetic.
pub open spec fn has_alpha(s: Seq<char>) -> bool {
    exists|k: int| 0 <= k < s.len() && is_alpha(s[k])
}

/// Decide whether any character of `v` is alphabetic.
pub fn any_alpha(v: &Vec<char>) -> (r: bool)
    ensures
        r == has_alpha(v@),
{
    let mut i: usize = 0;
    while i < v.len()
        invariant
            0 <= i <= v@.len(),
            forall|k: int| 0 <= k < i ==> !is_alpha(v@[k]),
        decreases v@.len() - i,
    {
        if is_alpha_char(v[i]) {
            return true;
        }
        i = i + 1;
    }
    false
}

/// ASCII lowercasing of a single character.
pub open spec fn ascii_lower(c: char) -> char {
    match c {
        'A' => 'a',
        'B' => 'b',
        'C' => 'c',
        'D' => 'd',
        'E' => 'e',
        'F' => 'f',
        'G' => 'g',
        'H' => 'h',
        'I' => 'i',
        'J' => 'j',
        'K' => 'k',
        'L' => 'l',
        'M' => 'm',
        'N' => 'n',
        'O' => 'o',
        'P' => 'p',
        'Q' => 'q',
        'R' => 'r',
        'S' => 's',
        'T' => 't',
        'U' => 'u',
        'V' => 'v',
        'W' => 'w',
        'X' => 'x',
        'Y' => 'y',
        'Z' => 'z',
        _ => c,
    }
}

/// Lowercase one character, ASCII letters only.
pub fn ascii_lower_char(c: char) -> (r: char)
    ensures
        r == ascii_lower(c),
{
    match c {
        'A' => 'a',
        'B' => 'b',
        'C' => 'c',
        'D' => 'd',
        'E' => 'e',
        'F' => 'f',
        'G' => 'g',
        'H' => 'h',
        'I' => 'i',
        'J' => 'j',
        'K' => 'k',
        'L' => 'l',
        'M' => 'm',
        'N' => 'n',
        'O' => 'o',
        'P' => 'p',
        'Q' => 'q',
        'R' => 'r',
        'S' => 's',
        'T' => 't',
        'U' => 'u',
        'V' => 'v',
        'W' => 'w',
        'X' => 'x',
        'Y' => 'y',
        'Z' => 'z',
        _ => c,
    }
}

/// ASCII lowercasing of a character sequence.
pub open spec fn ascii_lower_seq(s: Seq<char>) -> Seq<char> {
    s.map_values(|c: char| ascii_lower(c))
}

/// Lowercase the ASCII letters of a character vector.
pub fn to_ascii_lower(v: &Vec<char>) -> (r: Vec<char>)
    ensures
        r@ == ascii_lower_seq(v@),
{
    let mut r: Vec<char> = Vec::new();
    let mut i: usize = 0;
    while i < v.len()
        invariant
            0 <= i <= v@.len(),
            r@ =~= v@.take(i as int).map_values(|c: char| ascii_lower(c)),
        decreases v@.len() - i,
    {
        r.push(ascii_lower_char(v[i]));
        i = i + 1;
    }
    proof {
        assert(r@ =~= ascii_lower_seq(v@));
    }
    r
}

/// Lexicographic order on character sequences, by Unicode scalar value.
pub open spec fn lex_le(a: Seq<char>, b: Seq<char>) -> bool
    decreases a.len(),
{
    if a.len() == 0 {
        true
    } else if b.len() == 0 {
        false
    } else if (a[0] as u32) < (b[0] as u32) {
        true
    } else if (a[0] as u32) > (b[0] as u32) {
        false
    } else {
        lex_le(a.drop_first(), b.drop_first())
    }
}

/// The lexicographic order is total.
pub proof fn lemma_lex_le_total(a: Seq<char>, b: Seq<char>)
    ensures
        lex_le(a, b) || lex_le(b, a),
    decreases a.len(),
{
    if a.len() != 0 && b.len() != 0 && a[0] as u32 == b[0] as u32 {
        lemma_lex_le_total(a.drop_first(), b.drop_first());
    }
}

/// The lexicographic order is antisymmetric.
pub proof fn lemma_lex_le_antisym(a: Seq<char>, b: Seq<char>)
    requires
        lex_le(a, b),
        lex_le(b, a),
    ensures
        a =~= b,
    decreases a.len(),
{
    if a.len() != 0 && b.len() != 0 {
        assert(a[0] as u32 == b[0] as u32);
        vstd::utf8::char_u32_cast(a[0], a[0] as u32);
        vstd::utf8::char_u32_cast(b[0], b[0] as u32);
        assert(a[0] == b[0]);
        lemma_lex_le_antisym(a.drop_first(), b.drop_first());
        assert(a =~= seq![a[0]] + a.drop_first());
        assert(b =~= seq![b[0]] + b.drop_first());
    }
}

/// Compare two strings lexicographically by character.
pub fn str_lex_le(a: &str, b: &str) -> (r: bool)
    ensures
        r == lex_le(a@, b@),
{
    let an = a.unicode_len();
    let bn = b.unicode_len();
    let mut i: usize = 0;
    proof {
        assert(a@.skip(0) =~= a@);
        assert(b@.skip(0) =~= b@);
    }
    loop
        invariant
            0 <= i <= an,
            i <= bn,
            an == a@.len(),
            bn == b@.len(),
            forall|k: int| 0 <= k < i ==> a@[k] == b@[k],
            lex_le(a@, b@) == lex_le(a@.skip(i as int), b@.skip(i as int)),
        decreases an - i,
    {
        if i == an {
            return true;
        }
        if i == bn {
            return false;
        }
        let ca = a.get_char(i);
        let cb = b.get_char(i);
        if (ca as u32) < (cb as u32) {
            return true;
        }
        if (ca as u32) > (cb as u32) {
            return false;
        }
        proof {
            assert(a@.skip(i as int).drop_first() =~= a@.skip(i + 1));
            assert(b@.skip(i as int).drop_first() =~= b@.skip(i + 1));
        }
        i = i + 1;
    }
}

} // verus!
