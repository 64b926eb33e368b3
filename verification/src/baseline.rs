//! Baselines: persisted fingerprints of known duplicates.
//!
//! A baseline records a fingerprint for every detected block so that later
//! runs can report only new duplicates. Reading and writing the baseline
//! file is I/O and lives with the binary; fingerprinting, containment and
//! filtering are verified here.

use vstd::prelude::*;

verus! {

use crate::block::Block;
use crate::config::u32_le_bytes;
use crate::detect::{sat_usize, sum_block_counts, DuploResult};
use crate::error::DuploError;
use crate::hash::{fnv1a64_hash, fnv1a64_spec};
use crate::source_file::SourceFile;
use crate::text::{lex_le, lemma_lex_le_antisym, lemma_lex_le_total, str_eq, str_lex_le};

/// The baseline format version this crate writes and accepts.
pub const BASELINE_VERSION: u32 = 1;

/// A single baseline entry: a known duplicate's fingerprint.
#[derive(Debug, Clone, PartialEq)]
pub struct BaselineEntry {
    /// Path to the first file, the lexicographically smaller one.
    pub file1: String,
    /// Path to the second file.
    pub file2: String,
    /// Digest of the duplicate content: the block's line hashes.
    pub content_hash: u64,
    /// Number of duplicate lines.
    pub line_count: usize,
}

/// The little-endian byte stream of the `count` line hashes of a block
/// starting at `line1`.
pub open spec fn block_hash_bytes(hashes: Seq<u32>, line1: int, count: int) -> Seq<u8>
    decreases count,
{
    if count <= 0 {
        Seq::empty()
    } else {
        block_hash_bytes(hashes, line1, count - 1) + u32_le_bytes(hashes[line1 + count - 1])
    }
}

/// The content digest of a block: the digest of its line-hash stream from
/// its first file.
pub open spec fn block_content_hash(f: SourceFile, b: Block) -> u64 {
    fnv1a64_spec(block_hash_bytes(f.hashes(), b.line1 as int, b.count as int))
}

/// A block's indices and lines lie inside the corpus.
pub open spec fn block_in_range(files: Seq<SourceFile>, b: Block) -> bool {
    &&& b.source1_idx < files.len()
    &&& b.source2_idx < files.len()
    &&& b.line1 + b.count <= files[b.source1_idx as int].source_lines@.len()
}

/// Every block of a sequence lies inside the corpus.
pub open spec fn blocks_in_range(files: Seq<SourceFile>, blocks: Seq<Block>) -> bool {
    forall|k: int| 0 <= k < blocks.len() ==> block_in_range(files, #[trigger] blocks[k])
}

/// The lexicographically ordered pair of a block's two file paths.
pub open spec fn sorted_pair(a: Seq<char>, b: Seq<char>) -> (Seq<char>, Seq<char>) {
    if lex_le(a, b) {
        (a, b)
    } else {
        (b, a)
    }
}

/// The plain values an entry carries.
pub open spec fn entry_view(e: BaselineEntry) -> (Seq<char>, Seq<char>, u64, int) {
    (e.file1@, e.file2@, e.content_hash, e.line_count as int)
}

/// An entry carries exactly a block's fingerprint.
pub open spec fn entry_matches(e: BaselineEntry, files: Seq<SourceFile>, b: Block) -> bool {
    let p = sorted_pair(files[b.source1_idx as int].filename@, files[b.source2_idx as int].filename@);
    &&& e.file1@ == p.0
    &&& e.file2@ == p.1
    &&& e.content_hash == block_content_hash(files[b.source1_idx as int], b)
    &&& e.line_count == b.count
}

/// An entry matches a block's file pair and content digest; the line count
/// takes no part in containment checks.
pub open spec fn entry_key_matches(e: BaselineEntry, files: Seq<SourceFile>, b: Block) -> bool {
    let p = sorted_pair(files[b.source1_idx as int].filename@, files[b.source2_idx as int].filename@);
    &&& e.file1@ == p.0
    &&& e.file2@ == p.1
    &&& e.content_hash == block_content_hash(files[b.source1_idx as int], b)
}

/// Some entry of the set carries this entry's fingerprint.
pub open spec fn from_entries(entries: Seq<BaselineEntry>, e: BaselineEntry) -> bool {
    exists|j: int| 0 <= j < entries.len() && entry_view(e) == entry_view(#[trigger] entries[j])
}

/// A block is known to a set of entries.
pub open spec fn known_block(entries: Seq<BaselineEntry>, files: Seq<SourceFile>, b: Block) -> bool {
    exists|k: int| 0 <= k < entries.len() && entry_key_matches(#[trigger] entries[k], files, b)
}

/// The blocks of a sequence from position `i` on that are not known.
pub open spec fn new_blocks_from(
    entries: Seq<BaselineEntry>,
    files: Seq<SourceFile>,
    blocks: Seq<Block>,
    i: int,
) -> Seq<Block>
    decreases blocks.len() - i,
{
    if i < 0 || i >= blocks.len() {
        Seq::empty()
    } else {
        let rest = new_blocks_from(entries, files, blocks, i + 1);
        if known_block(entries, files, blocks[i]) {
            rest
        } else {
            seq![blocks[i]] + rest
        }
    }
}

impl BaselineEntry {
    /// Create a normalized entry: the two paths are sorted so that the
    /// same pair always compares equal.
    pub fn new(file1: String, file2: String, content_hash: u64, line_count: usize) -> (r: Self)
        ensures
            (r.file1@, r.file2@) == sorted_pair(file1@, file2@),
            lex_le(r.file1@, r.file2@),
            r.content_hash == content_hash,
            r.line_count == line_count,
    {
        proof {
            lemma_lex_le_total(file1@, file2@);
        }
        if str_lex_le(file1.as_str(), file2.as_str()) {
            BaselineEntry { file1, file2, content_hash, line_count }
        } else {
            BaselineEntry { file1: file2, file2: file1, content_hash, line_count }
        }
    }
}

/// Path-order invariance: swapping the two files of an entry leaves the
/// normalized pair, and with it baseline membership, unchanged.
pub proof fn lemma_sorted_pair_symmetric(a: Seq<char>, b: Seq<char>)
    ensures
        sorted_pair(a, b) == sorted_pair(b, a),
{
    lemma_lex_le_total(a, b);
    if lex_le(a, b) && lex_le(b, a) {
        lemma_lex_le_antisym(a, b);
    }
}

/// Compute the content digest of a block from its first file.
pub fn compute_block_hash(block: &Block, source_files: &Vec<SourceFile>) -> (h: u64)
    requires
        block_in_range(source_files@, *block),
    ensures
        h == block_content_hash(source_files@[block.source1_idx as int], *block),
{
    let source = &source_files[block.source1_idx];
    let nlines = source.num_lines();
    let mut bytes: Vec<u8> = Vec::new();
    let mut i: usize = 0;
    while i < block.count
        invariant
            0 <= i <= block.count,
            block.line1 + block.count <= nlines,
            nlines == source.source_lines@.len(),
            source.source_lines@ == source_files@[block.source1_idx as int].source_lines@,
            source.hashes() == source_files@[block.source1_idx as int].hashes(),
            bytes@ =~= block_hash_bytes(source.hashes(), block.line1 as int, i as int),
        decreases block.count - i,
    {
        let h = source.get_line(block.line1 + i).hash;
        bytes.push((h % 256) as u8);
        bytes.push(((h / 256) % 256) as u8);
        bytes.push(((h / 65536) % 256) as u8);
        bytes.push(((h / 16777216) % 256) as u8);
        proof {
            assert(source.hashes()[block.line1 + i] == h);
            assert(bytes@ =~= block_hash_bytes(source.hashes(), block.line1 as int, i + 1));
        }
        i = i + 1;
    }
    fnv1a64_hash(bytes.as_slice())
}

/// A persisted baseline: format version, detection-configuration digest,
/// and the entries.
#[derive(Debug)]
pub struct Baseline {
    /// Format version.
    pub version: u32,
    /// Digest of the detection configuration, for drift warnings.
    pub config_hash: u64,
    /// All baseline entries.
    pub entries: Vec<BaselineEntry>,
}

impl Baseline {
    /// Create a baseline from detection results: one fingerprint per block.
    pub fn from_results(
        result: &DuploResult,
        source_files: &Vec<SourceFile>,
        config_hash: u64,
    ) -> (r: Baseline)
        requires
            blocks_in_range(source_files@, result.blocks@),
        ensures
            r.version == BASELINE_VERSION,
            r.config_hash == config_hash,
            r.entries@.len() == result.blocks@.len(),
            forall|k: int|
                0 <= k < r.entries@.len() ==> entry_matches(
                    #[trigger] r.entries@[k],
                    source_files@,
                    result.blocks@[k],
                ),
    {
        let mut entries: Vec<BaselineEntry> = Vec::new();
        let mut i: usize = 0;
        while i < result.blocks.len()
            invariant
                0 <= i <= result.blocks@.len(),
                blocks_in_range(source_files@, result.blocks@),
                entries@.len() == i,
                forall|k: int|
                    0 <= k < i ==> entry_matches(
                        #[trigger] entries@[k],
                        source_files@,
                        result.blocks@[k],
                    ),
            decreases result.blocks@.len() - i,
        {
            let block = &result.blocks[i];
            proof {
                assert(block_in_range(source_files@, result.blocks@[i as int]));
            }
            let file1 = source_files[block.source1_idx].filename.clone();
            let file2 = source_files[block.source2_idx].filename.clone();
            let content_hash = compute_block_hash(block, source_files);
            entries.push(BaselineEntry::new(file1, file2, content_hash, block.count));
            i = i + 1;
        }
        Baseline { version: BASELINE_VERSION, config_hash, entries }
    }

    /// The entries collected into one vector, repeated fingerprints
    /// dropped.
    pub fn entry_set(&self) -> (r: Vec<BaselineEntry>)
        ensures
            forall|k: int| 0 <= k < r@.len() ==> from_entries(self.entries@, #[trigger] r@[k]),
    {
        let mut r: Vec<BaselineEntry> = Vec::new();
        let mut i: usize = 0;
        while i < self.entries.len()
            invariant
                0 <= i <= self.entries@.len(),
                forall|k: int| 0 <= k < r@.len() ==> from_entries(self.entries@, #[trigger] r@[k]),
            decreases self.entries@.len() - i,
        {
            let e = &self.entries[i];
            let mut seen = false;
            let mut j: usize = 0;
            while j < r.len()
                invariant
                    0 <= j <= r@.len(),
                    forall|k: int|
                        0 <= k < r@.len() ==> from_entries(self.entries@, #[trigger] r@[k]),
                decreases r@.len() - j,
            {
                if str_eq(r[j].file1.as_str(), e.file1.as_str()) && str_eq(
                    r[j].file2.as_str(),
                    e.file2.as_str(),
                ) && r[j].content_hash == e.content_hash && r[j].line_count == e.line_count {
                    seen = true;
                }
                j = j + 1;
            }
            if !seen {
                let ghost prev = r@;
                r.push(
                    BaselineEntry {
                        file1: e.file1.clone(),
                        file2: e.file2.clone(),
                        content_hash: e.content_hash,
                        line_count: e.line_count,
                    },
                );
                proof {
                    assert(entry_view(r@.last()) == entry_view(self.entries@[i as int]));
                    assert(from_entries(self.entries@, r@.last()));
                    assert forall|k: int| 0 <= k < r@.len() implies from_entries(
                        self.entries@,
                        #[trigger] r@[k],
                    ) by {
                        if k < r@.len() - 1 {
                            assert(r@[k] == prev[k]);
                        } else {
                            assert(r@[k] == r@.last());
                        }
                    }
                }
            }
            i = i + 1;
        }
        r
    }

    /// Whether a block matches some baseline entry, by file pair and
    /// content digest.
    pub fn contains(&self, block: &Block, source_files: &Vec<SourceFile>) -> (r: bool)
        requires
            block_in_range(source_files@, *block),
        ensures
            r == known_block(self.entries@, source_files@, *block),
    {
        let file1 = source_files[block.source1_idx].filename.as_str();
        let file2 = source_files[block.source2_idx].filename.as_str();
        let content_hash = compute_block_hash(block, source_files);
        proof {
            lemma_lex_le_total(file1@, file2@);
        }
        let swap = !str_lex_le(file1, file2);
        let f1 = if swap {
            file2
        } else {
            file1
        };
        let f2 = if swap {
            file1
        } else {
            file2
        };
        let mut i: usize = 0;
        while i < self.entries.len()
            invariant
                0 <= i <= self.entries@.len(),
                block_in_range(source_files@, *block),
                (f1@, f2@) == sorted_pair(
                    source_files@[block.source1_idx as int].filename@,
                    source_files@[block.source2_idx as int].filename@,
                ),
                content_hash == block_content_hash(
                    source_files@[block.source1_idx as int],
                    *block,
                ),
                forall|k: int|
                    0 <= k < i ==> !entry_key_matches(
                        #[trigger] self.entries@[k],
                        source_files@,
                        *block,
                    ),
            decreases self.entries@.len() - i,
        {
            let e = &self.entries[i];
            if str_eq(e.file1.as_str(), f1) && str_eq(e.file2.as_str(), f2) && e.content_hash
                == content_hash {
                proof {
                    assert(entry_key_matches(self.entries@[i as int], source_files@, *block));
                }
                return true;
            }
            i = i + 1;
        }
        false
    }

    /// Filter results to only the new duplicates: drop every known block
    /// and recompute the counters over the survivors.
    pub fn filter_new_duplicates(
        &self,
        result: DuploResult,
        source_files: &Vec<SourceFile>,
    ) -> (r: DuploResult)
        requires
            blocks_in_range(source_files@, result.blocks@),
        ensures
            r.blocks@ == new_blocks_from(self.entries@, source_files@, result.blocks@, 0),
            r.files_analyzed == result.files_analyzed,
            r.total_lines == result.total_lines,
            r.duplicate_lines == sat_usize(sum_block_counts(r.blocks@)),
            r.duplicate_blocks == r.blocks@.len(),
    {
        let ghost all = result.blocks@;
        let mut new_blocks: Vec<Block> = Vec::new();
        let mut i: usize = 0;
        while i < result.blocks.len()
            invariant
                0 <= i <= all.len(),
                result.blocks@ == all,
                blocks_in_range(source_files@, all),
                new_blocks_from(self.entries@, source_files@, all, 0) =~= new_blocks@
                    + new_blocks_from(self.entries@, source_files@, all, i as int),
            decreases all.len() - i,
        {
            let block = &result.blocks[i];
            proof {
                assert(block_in_range(source_files@, all[i as int]));
            }
            let ghost prev = new_blocks@;
            if !self.contains(block, source_files) {
                new_blocks.push(block.clone());
                proof {
                    assert(new_blocks@ =~= prev.push(all[i as int]));
                    assert(prev + (seq![all[i as int]] + new_blocks_from(
                        self.entries@,
                        source_files@,
                        all,
                        i as int + 1,
                    )) =~= new_blocks@ + new_blocks_from(
                        self.entries@,
                        source_files@,
                        all,
                        i as int + 1,
                    ));
                }
            }
            i = i + 1;
        }
        proof {
            assert(new_blocks_from(self.entries@, source_files@, all, all.len() as int) =~= Seq::<
                Block,
            >::empty());
            assert(new_blocks@ + Seq::<Block>::empty() =~= new_blocks@);
        }
        let duplicate_lines = {
            let mut total: usize = 0;
            let mut z: usize = 0;
            while z < new_blocks.len()
                invariant
                    0 <= z <= new_blocks@.len(),
                    total == sat_usize(sum_block_counts(new_blocks@.take(z as int))),
                decreases new_blocks@.len() - z,
            {
                proof {
                    assert(new_blocks@.take(z + 1).drop_last() =~= new_blocks@.take(z as int));
                }
                total = match total.checked_add(new_blocks[z].count) {
                    Some(t) => t,
                    None => usize::MAX,
                };
                z = z + 1;
            }
            proof {
                assert(new_blocks@.take(new_blocks@.len() as int) =~= new_blocks@);
            }
            total
        };
        let duplicate_blocks = new_blocks.len();
        DuploResult {
            blocks: new_blocks,
            files_analyzed: result.files_analyzed,
            total_lines: result.total_lines,
            duplicate_lines,
            duplicate_blocks,
        }
    }
}

/// Check a loaded baseline's format version: a mismatch is a hard failure.
pub fn check_baseline_version(version: u32) -> (r: Result<(), DuploError>)
    ensures
        r is Ok <==> version == BASELINE_VERSION,
        version != BASELINE_VERSION ==> r == Result::<(), DuploError>::Err(
            DuploError::BaselineVersionMismatch { found: version, expected: BASELINE_VERSION },
        ),
{
    if version != BASELINE_VERSION {
        Err(DuploError::BaselineVersionMismatch { found: version, expected: BASELINE_VERSION })
    } else {
        Ok(())
    }
}

/// Fingerprint side-independence: along a block whose lines match hash for
/// hash, the hash stream read from the first file equals the stream read
/// from the second, so the content digest does not depend on which file of
/// the pair counts as first.
pub proof fn lemma_fingerprint_side_independent(
    h1: Seq<u32>,
    h2: Seq<u32>,
    line1: int,
    line2: int,
    count: int,
)
    requires
        forall|q: int| 0 <= q < count ==> #[trigger] h1[line1 + q] == h2[line2 + q],
    ensures
        block_hash_bytes(h1, line1, count) == block_hash_bytes(h2, line2, count),
    decreases count,
{
    if count > 0 {
        lemma_fingerprint_side_independent(h1, h2, line1, line2, count - 1);
        assert(h1[line1 + count - 1] == h2[line2 + count - 1]);
    }
}

/// Baseline filter monotonicity: filtering a result against the baseline
/// built from that same result leaves no blocks.
pub proof fn lemma_baseline_filter_self(
    entries: Seq<BaselineEntry>,
    files: Seq<SourceFile>,
    blocks: Seq<Block>,
    i: int,
)
    requires
        entries.len() == blocks.len(),
        forall|k: int|
            0 <= k < entries.len() ==> entry_matches(#[trigger] entries[k], files, blocks[k]),
        0 <= i,
    ensures
        new_blocks_from(entries, files, blocks, i) =~= Seq::<Block>::empty(),
    decreases blocks.len() - i,
{
    if i < blocks.len() {
        assert(entry_matches(entries[i], files, blocks[i]));
        assert(entry_key_matches(entries[i], files, blocks[i]));
        assert(known_block(entries, files, blocks[i]));
        lemma_baseline_filter_self(entries, files, blocks, i + 1);
    }
}

} // verus!
