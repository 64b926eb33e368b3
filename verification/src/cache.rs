//! The incremental cache of cleaned lines.
//!
//! One cache entry per source file, keyed by the raw content digest and the
//! cleaning-configuration digest. Reading and writing entry files is I/O
//! and lives with the binary; entry construction, naming and validation are
//! verified here. An entry is used only when its format version, its
//! configuration digest, its content digest and every stored line hash
//! check out; otherwise it counts as absent.

use vstd::prelude::*;

verus! {

use crate::config::Config;
use crate::hash::{fnv1a64_hash, fnv1a64_spec, hash_line, line_hash_spec};
use crate::line::SourceLine;
use vstd::string::StringSliceAdditionalSpecFns;

/// The cache format version this crate writes and accepts.
pub const CACHE_VERSION: u32 = 1;

/// The character for one hex digit value.
pub open spec fn hex_digit(d: int) -> char {
    if d == 0 {
        '0'
    } else if d == 1 {
        '1'
    } else if d == 2 {
        '2'
    } else if d == 3 {
        '3'
    } else if d == 4 {
        '4'
    } else if d == 5 {
        '5'
    } else if d == 6 {
        '6'
    } else if d == 7 {
        '7'
    } else if d == 8 {
        '8'
    } else if d == 9 {
        '9'
    } else if d == 10 {
        'a'
    } else if d == 11 {
        'b'
    } else if d == 12 {
        'c'
    } else if d == 13 {
        'd'
    } else if d == 14 {
        'e'
    } else {
        'f'
    }
}

/// The last `digits` hex digits of `x`, most significant first.
pub open spec fn hex_rec(x: int, digits: nat) -> Seq<char>
    decreases digits,
{
    if digits == 0 {
        Seq::empty()
    } else {
        hex_rec(x / 16, (digits - 1) as nat).push(hex_digit(x % 16))
    }
}

/// The character for one hex digit value.
fn hex_digit_exec(d: u64) -> (c: char)
    requires
        d < 16,
    ensures
        c == hex_digit(d as int),
{
    match d {
        0 => '0',
        1 => '1',
        2 => '2',
        3 => '3',
        4 => '4',
        5 => '5',
        6 => '6',
        7 => '7',
        8 => '8',
        9 => '9',
        10 => 'a',
        11 => 'b',
        12 => 'c',
        13 => 'd',
        14 => 'e',
        _ => 'f',
    }
}

/// The last `digits` hex digits of `x`, most significant first.
fn hex_digits(x: u64, digits: usize) -> (v: Vec<char>)
    ensures
        v@ == hex_rec(x as int, digits as nat),
        v@.len() == digits,
    decreases digits,
{
    if digits == 0 {
        Vec::new()
    } else {
        let mut v = hex_digits(x / 16, digits - 1);
        v.push(hex_digit_exec(x % 16));
        v
    }
}

/// A cached cleaned line: text, original line number, and line hash.
#[derive(Debug, Clone)]
pub struct CachedLine {
    /// The cleaned line text.
    pub line: String,
    /// Original line number in the source file.
    pub line_number: usize,
    /// Precomputed hash of the line.
    pub hash: u32,
}

/// A cache entry for one source file.
#[derive(Debug)]
pub struct CacheEntry {
    /// Cache format version.
    pub version: u32,
    /// Digest of the original raw file bytes.
    pub content_hash: u64,
    /// Digest of the cleaning configuration.
    pub config_hash: u64,
    /// The cached processed lines.
    pub lines: Vec<CachedLine>,
}

/// The manager of the cleaned-line cache: a directory and the cleaning
/// configuration digest entries are checked against.
pub struct FileCache {
    /// Directory where cache entry files are stored.
    pub cache_dir: String,
    /// Cleaning configuration digest, for invalidation.
    pub config_hash: u64,
}

/// The digest of a file's raw bytes.
pub open spec fn content_hash_spec(data: Seq<u8>) -> u64 {
    fnv1a64_spec(data)
}

/// Compute the digest of a file's raw bytes.
pub fn compute_content_hash(data: &Vec<u8>) -> (h: u64)
    ensures
        h == content_hash_spec(data@),
{
    fnv1a64_hash(data.as_slice())
}

/// The models of cached lines: text, number and hash triples.
pub open spec fn cached_models(v: Seq<CachedLine>) -> Seq<(Seq<char>, int, u32)> {
    v.map_values(|l: CachedLine| (l.line@, l.line_number as int, l.hash))
}

/// The models of source lines, with their hashes.
pub open spec fn source_models(v: Seq<SourceLine>) -> Seq<(Seq<char>, int, u32)> {
    v.map_values(|l: SourceLine| (l.line@, l.line_number as int, l.hash))
}

impl FileCache {
    /// Create a cache manager over a directory, for a cleaning
    /// configuration.
    pub fn new(cache_dir: String, config: &Config) -> (r: Self)
        ensures
            r.cache_dir@ == cache_dir@,
            r.config_hash == crate::config::cleaning_hash_spec(config.min_chars),
    {
        let config_hash = config.cleaning_config_hash();
        FileCache { cache_dir, config_hash }
    }

    /// The path of the entry file for a source path: a 16-hex-digit name
    /// derived from the path's digest, to avoid path-length issues.
    pub fn cache_path(&self, source_path: &str) -> (r: String)
        ensures
            r@ == self.cache_dir@ + "/"@ + hex_rec(
                fnv1a64_spec(source_path.spec_bytes()) as int,
                16,
            ) + ".cache"@,
    {
        let h = fnv1a64_hash(source_path.as_bytes());
        let digits = hex_digits(h, 16);
        let dir_chars = crate::text::str_chars(self.cache_dir.as_str());
        let mut out: Vec<char> = dir_chars;
        let ghost dirv = self.cache_dir@;
        out.push('/');
        proof {
            reveal_strlit("/");
            assert(out@ =~= dirv + "/"@);
        }
        let mut k: usize = 0;
        while k < 16
            invariant
                0 <= k <= 16,
                digits@ == hex_rec(fnv1a64_spec(source_path.spec_bytes()) as int, 16),
                digits@.len() == 16,
                out@ =~= dirv + "/"@ + digits@.take(k as int),
            decreases 16 - k,
        {
            out.push(digits[k]);
            proof {
                assert(out@ =~= dirv + "/"@ + digits@.take(k + 1));
            }
            k = k + 1;
        }
        out.push('.');
        out.push('c');
        out.push('a');
        out.push('c');
        out.push('h');
        out.push('e');
        proof {
            reveal_strlit(".cache");
            assert(digits@.take(16) =~= digits@);
            assert(out@ =~= dirv + "/"@ + digits@ + ".cache"@);
        }
        crate::text::chars_to_string(&out)
    }

    /// Build the entry to store for a source file: its lines under the
    /// current configuration and content digests.
    pub fn make_entry(&self, lines: &Vec<SourceLine>, content_hash: u64) -> (e: CacheEntry)
        ensures
            e.version == CACHE_VERSION,
            e.content_hash == content_hash,
            e.config_hash == self.config_hash,
            cached_models(e.lines@) == source_models(lines@),
    {
        let mut cached: Vec<CachedLine> = Vec::new();
        let mut i: usize = 0;
        while i < lines.len()
            invariant
                0 <= i <= lines@.len(),
                cached_models(cached@) =~= source_models(lines@.take(i as int)),
            decreases lines@.len() - i,
        {
            let l = &lines[i];
            let ghost prevc = cached@;
            cached.push(
                CachedLine { line: l.line.clone(), line_number: l.line_number, hash: l.hash },
            );
            proof {
                assert(cached@.last().line@ == lines@[i as int].line@);
                assert(cached_models(cached@) =~= cached_models(prevc).push(
                    (cached@.last().line@, cached@.last().line_number as int, cached@.last().hash),
                ));
                assert(source_models(lines@.take(i + 1)) =~= source_models(lines@.take(i as int)).push(
                    (lines@[i as int].line@, lines@[i as int].line_number as int, lines@[i as int].hash),
                ));
                assert(cached_models(cached@) =~= source_models(lines@.take(i + 1)));
            }
            i = i + 1;
        }
        proof {
            assert(lines@.take(lines@.len() as int) =~= lines@);
        }
        CacheEntry {
            version: CACHE_VERSION,
            content_hash,
            config_hash: self.config_hash,
            lines: cached,
        }
    }

    /// Validate a loaded entry against the current content digest and this
    /// cache's configuration digest. The lines are returned only when the
    /// version, both digests, and every stored line hash check out.
    pub fn validate_entry(&self, entry: &CacheEntry, current_content_hash: u64) -> (r: Option<
        Vec<SourceLine>,
    >)
        ensures
            (entry.version == CACHE_VERSION && entry.config_hash == self.config_hash
                && entry.content_hash == current_content_hash && stored_hashes_ok(entry.lines@))
                <==> r is Some,
            r is Some ==> source_models(r.unwrap()@) == cached_models(entry.lines@)
                && crate::filetype::common::lines_wf(r.unwrap()@),
    {
        if entry.version != CACHE_VERSION {
            return None;
        }
        if entry.config_hash != self.config_hash {
            return None;
        }
        if entry.content_hash != current_content_hash {
            return None;
        }
        let mut out: Vec<SourceLine> = Vec::new();
        let mut i: usize = 0;
        while i < entry.lines.len()
            invariant
                0 <= i <= entry.lines@.len(),
                source_models(out@) =~= cached_models(entry.lines@.take(i as int)),
                crate::filetype::common::lines_wf(out@),
                forall|k: int|
                    0 <= k < i ==> (#[trigger] entry.lines@[k]).hash == line_hash_spec(
                        vstd::utf8::encode_utf8(entry.lines@[k].line@),
                    ),
            decreases entry.lines@.len() - i,
        {
            let cl = &entry.lines[i];
            let expected = hash_line(cl.line.as_str());
            if cl.hash != expected {
                proof {
                    assert(!stored_hashes_ok(entry.lines@));
                }
                return None;
            }
            let ghost prevo = out@;
            out.push(
                SourceLine { line: cl.line.clone(), line_number: cl.line_number, hash: cl.hash },
            );
            proof {
                assert(out@.last().line@ == entry.lines@[i as int].line@);
                assert(out@.last().wf());
                assert(source_models(out@) =~= source_models(prevo).push(
                    (out@.last().line@, out@.last().line_number as int, out@.last().hash),
                ));
                assert(cached_models(entry.lines@.take(i + 1)) =~= cached_models(
                    entry.lines@.take(i as int),
                ).push(
                    (
                        entry.lines@[i as int].line@,
                        entry.lines@[i as int].line_number as int,
                        entry.lines@[i as int].hash,
                    ),
                ));
                assert(source_models(out@) =~= cached_models(entry.lines@.take(i + 1)));
            }
            i = i + 1;
        }
        proof {
            assert(entry.lines@.take(entry.lines@.len() as int) =~= entry.lines@);
        }
        Some(out)
    }
}

/// Every stored line hash is the hash of its own text.
pub open spec fn stored_hashes_ok(v: Seq<CachedLine>) -> bool {
    forall|k: int|
        0 <= k < v.len() ==> (#[trigger] v[k]).hash == line_hash_spec(
            vstd::utf8::encode_utf8(v[k].line@),
        )
}

/// Cache round-trip: an entry stored for a sequence of well-formed lines
/// validates under the same content and configuration digests and yields
/// exactly that sequence; a different content digest or a different
/// configuration digest makes the entry count as absent.
pub proof fn lemma_cache_round_trip(
    cache: FileCache,
    entry: CacheEntry,
    lines: Seq<SourceLine>,
    current: u64,
)
    requires
        entry.version == CACHE_VERSION,
        entry.config_hash == cache.config_hash,
        cached_models(entry.lines@) == source_models(lines),
        crate::filetype::common::lines_wf(lines),
    ensures
        stored_hashes_ok(entry.lines@),
        entry.content_hash == current ==> (entry.version == CACHE_VERSION && entry.config_hash
            == cache.config_hash && entry.content_hash == current && stored_hashes_ok(
            entry.lines@,
        )),
        entry.content_hash != current ==> !(entry.content_hash == current),
{
    assert(cached_models(entry.lines@).len() == entry.lines@.len());
    assert(source_models(lines).len() == lines.len());
    assert forall|k: int| 0 <= k < entry.lines@.len() implies (#[trigger] entry.lines@[k]).hash
        == line_hash_spec(vstd::utf8::encode_utf8(entry.lines@[k].line@)) by {
        assert(cached_models(entry.lines@)[k] == (
            entry.lines@[k].line@,
            entry.lines@[k].line_number as int,
            entry.lines@[k].hash,
        ));
        assert(source_models(lines)[k] == (lines[k].line@, lines[k].line_number as int, lines[k].hash));
        assert(cached_models(entry.lines@)[k] == source_models(lines)[k]);
        assert((#[trigger] lines[k]).wf());
    }
}

/// Changing the minimum block size leaves the cleaning configuration
/// digest alone: only `min_chars` enters it, so such a change does not
/// invalidate the cache.
pub proof fn lemma_cleaning_hash_ignores_detection(a: Config, b: Config)
    requires
        a.min_chars == b.min_chars,
    ensures
        crate::config::cleaning_hash_spec(a.min_chars) == crate::config::cleaning_hash_spec(
            b.min_chars,
        ),
{
}

} // verus!
