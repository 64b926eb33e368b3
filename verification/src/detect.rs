//! Corpus-level detection: one task per file, aggregated in task order.
//!
//! Task `i` compares file `i` with itself and with every later file that
//! shares a line hash (and, when configured, does not share its basename).
//! The final block vector is the concatenation of the per-task vectors in
//! task order, so the result is a function of the corpus and the
//! configuration alone, whatever the thread count.

use vstd::prelude::*;

verus! {

use std::collections::HashMap;
use crate::block::Block;
use crate::config::Config;
use crate::engine::{
    calc_min_block_size_spec, pair_blocks_spec, process_file_pair, ThreadContext,
};
use crate::error::DuploError;
use crate::index::{build_hash_index, get_matching_files, index_ok, shares_hash};
use crate::source_file::{basename_spec, SourceFile};

/// The outcome of duplicate detection over a corpus.
#[derive(Debug)]
pub struct DuploResult {
    /// All detected duplicate blocks, in task order.
    pub blocks: Vec<Block>,
    /// The number of files analyzed as outer index.
    pub files_analyzed: usize,
    /// Total cleaned lines across the corpus.
    pub total_lines: usize,
    /// Total duplicate lines: the sum of the block counts.
    pub duplicate_lines: usize,
    /// The number of duplicate blocks.
    pub duplicate_blocks: usize,
}

/// An integer clamped to the machine word.
pub open spec fn sat_usize(x: int) -> int {
    if x <= usize::MAX {
        x
    } else {
        usize::MAX as int
    }
}

/// The sum of the counts of a sequence of blocks.
pub open spec fn sum_block_counts(blocks: Seq<Block>) -> int
    decreases blocks.len(),
{
    if blocks.len() == 0 {
        0
    } else {
        sum_block_counts(blocks.drop_last()) + blocks.last().count
    }
}

/// The total number of cleaned lines of the first `upto` files.
pub open spec fn total_lines_spec(files: Seq<SourceFile>, upto: int) -> int
    decreases upto,
{
    if upto <= 0 {
        0
    } else {
        total_lines_spec(files, upto - 1) + files[upto - 1].source_lines@.len()
    }
}

/// The largest cleaned-line count among the first `upto` files.
pub open spec fn max_lines_spec(files: Seq<SourceFile>, upto: int) -> int
    decreases upto,
{
    if upto <= 0 {
        0
    } else {
        let rest = max_lines_spec(files, upto - 1);
        if files[upto - 1].source_lines@.len() > rest {
            files[upto - 1].source_lines@.len() as int
        } else {
            rest
        }
    }
}

/// Every file is no longer than the maximum.
proof fn lemma_max_lines_bound(files: Seq<SourceFile>, upto: int, j: int)
    requires
        0 <= j < upto <= files.len(),
    ensures
        files[j].source_lines@.len() <= max_lines_spec(files, upto),
    decreases upto,
{
    if j < upto - 1 {
        lemma_max_lines_bound(files, upto - 1, j);
    }
}

/// The effective minimum block size for the pair `(i, j)`.
pub open spec fn pair_minb(files: Seq<SourceFile>, i: int, j: int, b: int, p: int) -> int {
    calc_min_block_size_spec(
        b,
        p,
        files[i].source_lines@.len() as int,
        files[j].source_lines@.len() as int,
    )
}

/// Whether the pair `(i, j)` is compared at all: it must share a line hash,
/// and must not share a basename when that filter is on.
pub open spec fn pair_selected(files: Seq<SourceFile>, i: int, j: int, ignore_same: bool) -> bool {
    &&& !(ignore_same && basename_spec(files[i].filename@) == basename_spec(files[j].filename@))
    &&& shares_hash(files, i, j)
}

/// The blocks task `i` collects from partners `j` and later.
pub open spec fn partner_blocks_from(
    files: Seq<SourceFile>,
    i: int,
    j: int,
    b: int,
    p: int,
    ignore_same: bool,
) -> Seq<Block>
    decreases files.len() - j,
{
    if j < i + 1 || j >= files.len() {
        Seq::empty()
    } else {
        (if pair_selected(files, i, j, ignore_same) {
            pair_blocks_spec(
                files[i].hashes(),
                files[j].hashes(),
                i,
                j,
                pair_minb(files, i, j, b, p),
                false,
            )
        } else {
            Seq::empty()
        }) + partner_blocks_from(files, i, j + 1, b, p, ignore_same)
    }
}

/// All blocks of task `i`: the self comparison, then the partners in order.
pub open spec fn task_blocks(
    files: Seq<SourceFile>,
    i: int,
    b: int,
    p: int,
    ignore_same: bool,
) -> Seq<Block> {
    pair_blocks_spec(
        files[i].hashes(),
        files[i].hashes(),
        i,
        i,
        pair_minb(files, i, i, b, p),
        true,
    ) + partner_blocks_from(files, i, i + 1, b, p, ignore_same)
}

/// The concatenation of the blocks of tasks `lo` to `hi`, in task order.
pub open spec fn tasks_range(
    files: Seq<SourceFile>,
    lo: int,
    hi: int,
    b: int,
    p: int,
    ignore_same: bool,
) -> Seq<Block>
    decreases hi - lo,
{
    if lo < 0 || lo >= hi {
        Seq::empty()
    } else {
        task_blocks(files, lo, b, p, ignore_same) + tasks_range(files, lo + 1, hi, b, p, ignore_same)
    }
}

/// Every block detection reports over a corpus of which the first `fcount`
/// files serve as outer index.
pub open spec fn detect_blocks_spec(
    files: Seq<SourceFile>,
    fcount: int,
    b: int,
    p: int,
    ignore_same: bool,
) -> Seq<Block> {
    tasks_range(files, 0, fcount, b, p, ignore_same)
}

/// Thread-count independence of the schedule: however the outer indices are
/// split into consecutive chunks of tasks, concatenating the chunks' blocks
/// in order yields exactly the blocks of the whole range. The blocks are a
/// function of the corpus and configuration alone, so any worker pool that
/// computes each task's blocks and concatenates them in task order returns
/// the same vector, and in particular the same multiset of blocks, whatever
/// its thread count.
pub proof fn lemma_schedule_split(
    files: Seq<SourceFile>,
    lo: int,
    mid: int,
    hi: int,
    b: int,
    p: int,
    ignore_same: bool,
)
    requires
        0 <= lo <= mid <= hi,
    ensures
        tasks_range(files, lo, hi, b, p, ignore_same) == tasks_range(
            files,
            lo,
            mid,
            b,
            p,
            ignore_same,
        ) + tasks_range(files, mid, hi, b, p, ignore_same),
    decreases mid - lo,
{
    if lo == mid {
        assert(tasks_range(files, lo, mid, b, p, ignore_same) =~= Seq::<Block>::empty());
        assert(tasks_range(files, lo, mid, b, p, ignore_same) + tasks_range(
            files,
            mid,
            hi,
            b,
            p,
            ignore_same,
        ) =~= tasks_range(files, mid, hi, b, p, ignore_same));
    } else {
        lemma_schedule_split(files, lo + 1, mid, hi, b, p, ignore_same);
        assert(task_blocks(files, lo, b, p, ignore_same) + (tasks_range(
            files,
            lo + 1,
            mid,
            b,
            p,
            ignore_same,
        ) + tasks_range(files, mid, hi, b, p, ignore_same)) =~= (task_blocks(
            files,
            lo,
            b,
            p,
            ignore_same,
        ) + tasks_range(files, lo + 1, mid, b, p, ignore_same)) + tasks_range(
            files,
            mid,
            hi,
            b,
            p,
            ignore_same,
        ));
    }
}

/// The per-task block vectors of a detection run, in task order.
pub open spec fn task_seq_from(
    files: Seq<SourceFile>,
    lo: int,
    hi: int,
    b: int,
    p: int,
    ignore_same: bool,
) -> Seq<Seq<Block>> {
    Seq::new(
        if hi >= lo {
            (hi - lo) as nat
        } else {
            0
        },
        |i: int| task_blocks(files, lo + i, b, p, ignore_same),
    )
}

/// Flattening the per-task vectors in task order gives the blocks of the
/// whole range.
proof fn lemma_task_seq_flatten(
    files: Seq<SourceFile>,
    lo: int,
    hi: int,
    b: int,
    p: int,
    ignore_same: bool,
)
    requires
        0 <= lo <= hi,
    ensures
        task_seq_from(files, lo, hi, b, p, ignore_same).flatten() == tasks_range(
            files,
            lo,
            hi,
            b,
            p,
            ignore_same,
        ),
    decreases hi - lo,
{
    let s = task_seq_from(files, lo, hi, b, p, ignore_same);
    if lo == hi {
        assert(s.len() == 0);
    } else {
        lemma_task_seq_flatten(files, lo + 1, hi, b, p, ignore_same);
        assert(s.first() == task_blocks(files, lo, b, p, ignore_same));
        assert(s.drop_first() =~= task_seq_from(files, lo + 1, hi, b, p, ignore_same));
        assert(s.flatten() == s.first() + s.drop_first().flatten());
    }
}

/// Taking one task's blocks out of the flattened whole leaves the flattened
/// rest, at the multiset level.
proof fn lemma_flatten_multiset_remove(tasks: Seq<Seq<Block>>, j: int)
    requires
        0 <= j < tasks.len(),
    ensures
        tasks.flatten().to_multiset() == tasks.remove(j).flatten().to_multiset().add(
            tasks[j].to_multiset(),
        ),
    decreases tasks.len(),
{
    broadcast use vstd::multiset::group_multiset_axioms;

    if j == 0 {
        assert(tasks.remove(0) =~= tasks.drop_first());
        assert(tasks.flatten() == tasks.first() + tasks.drop_first().flatten());
        vstd::seq_lib::lemma_multiset_commutative(tasks.first(), tasks.drop_first().flatten());
        assert(tasks.flatten().to_multiset() =~= tasks.remove(0).flatten().to_multiset().add(
            tasks[0].to_multiset(),
        ));
    } else {
        let t = tasks.drop_first();
        lemma_flatten_multiset_remove(t, j - 1);
        assert(tasks.flatten() == tasks.first() + t.flatten());
        vstd::seq_lib::lemma_multiset_commutative(tasks.first(), t.flatten());
        let r = tasks.remove(j);
        assert(r.first() == tasks.first());
        assert(r.drop_first() =~= t.remove(j - 1));
        assert(r.flatten() == r.first() + t.remove(j - 1).flatten());
        vstd::seq_lib::lemma_multiset_commutative(tasks.first(), t.remove(j - 1).flatten());
        assert(tasks[j] == t[j - 1]);
        assert(tasks.flatten().to_multiset() =~= r.flatten().to_multiset().add(
            tasks[j].to_multiset(),
        ));
    }
}

/// Flattening reordered task results changes nothing at the multiset
/// level: two runs whose per-task vectors agree as a multiset agree on the
/// multiset of all blocks.
proof fn lemma_flatten_multiset_permutation(a: Seq<Seq<Block>>, b: Seq<Seq<Block>>)
    requires
        a.to_multiset() == b.to_multiset(),
    ensures
        a.flatten().to_multiset() == b.flatten().to_multiset(),
    decreases b.len(),
{
    broadcast use vstd::multiset::group_multiset_axioms, vstd::seq_lib::group_to_multiset_ensures;

    a.to_multiset_ensures();
    b.to_multiset_ensures();
    if b.len() == 0 {
        assert(a.len() == 0);
    } else {
        let x = b.last();
        assert(b.to_multiset().count(x) > 0) by {
            assert(b.contains(x));
        }
        assert(a.contains(x));
        let j = choose|j: int| 0 <= j < a.len() && a[j] == x;
        assert(a.remove(j).to_multiset() =~= a.to_multiset().remove(x));
        assert(b =~= b.drop_last().push(x));
        assert(b.to_multiset() =~= b.drop_last().to_multiset().insert(x));
        assert(b.drop_last().to_multiset() =~= b.to_multiset().remove(x));
        lemma_flatten_multiset_permutation(a.remove(j), b.drop_last());
        lemma_flatten_multiset_remove(a, j);
        lemma_flatten_multiset_remove(b, b.len() - 1);
        assert(b.remove(b.len() - 1) =~= b.drop_last());
        assert(a.flatten().to_multiset() =~= b.flatten().to_multiset());
    }
}

/// Thread-count independence at the multiset level: a pool that computes
/// each task's blocks and hands them back in any completion order yields
/// the same multiset of blocks as the sequential run, because the per-task
/// vectors are a function of the corpus and configuration alone.
pub proof fn lemma_schedule_multiset_independent(
    files: Seq<SourceFile>,
    fcount: int,
    b: int,
    p: int,
    ignore_same: bool,
    produced: Seq<Seq<Block>>,
)
    requires
        0 <= fcount,
        produced.to_multiset() == task_seq_from(files, 0, fcount, b, p, ignore_same).to_multiset(),
    ensures
        produced.flatten().to_multiset() == detect_blocks_spec(
            files,
            fcount,
            b,
            p,
            ignore_same,
        ).to_multiset(),
{
    lemma_flatten_multiset_permutation(
        produced,
        task_seq_from(files, 0, fcount, b, p, ignore_same),
    );
    lemma_task_seq_flatten(files, 0, fcount, b, p, ignore_same);
}

/// A detected block is well-formed for the corpus: it names an ordered
/// pair of files, and it is a valid, maximal diagonal run between them
/// under their effective minimum block size.
pub open spec fn detect_block_ok(
    files: Seq<SourceFile>,
    b: int,
    p: int,
    blk: Block,
) -> bool {
    &&& blk.source1_idx <= blk.source2_idx < files.len()
    &&& crate::engine::block_valid_spec(
        files[blk.source1_idx as int].hashes(),
        files[blk.source2_idx as int].hashes(),
        blk.source1_idx as int,
        blk.source2_idx as int,
        pair_minb(files, blk.source1_idx as int, blk.source2_idx as int, b, p),
        blk.source1_idx == blk.source2_idx,
        blk,
    )
}

/// Every block a task collects from its partners is well-formed.
proof fn lemma_partner_blocks_ok(
    files: Seq<SourceFile>,
    i: int,
    j: int,
    b: int,
    p: int,
    ig: bool,
)
    requires
        files.len() <= usize::MAX,
        forall|k: int|
            0 <= k < files.len() ==> (#[trigger] files[k]).source_lines@.len() <= usize::MAX,
        0 <= i < files.len(),
        i + 1 <= j,
    ensures
        forall|n: int|
            0 <= n < partner_blocks_from(files, i, j, b, p, ig).len() ==> detect_block_ok(
                files,
                b,
                p,
                #[trigger] partner_blocks_from(files, i, j, b, p, ig)[n],
            ),
    decreases files.len() - j,
{
    if i + 1 <= j < files.len() {
        lemma_partner_blocks_ok(files, i, j + 1, b, p, ig);
        let whole = partner_blocks_from(files, i, j, b, p, ig);
        let rest = partner_blocks_from(files, i, j + 1, b, p, ig);
        if pair_selected(files, i, j, ig) {
            let this = pair_blocks_spec(
                files[i].hashes(),
                files[j].hashes(),
                i,
                j,
                pair_minb(files, i, j, b, p),
                false,
            );
            assert forall|n: int| 0 <= n < whole.len() implies detect_block_ok(
                files,
                b,
                p,
                #[trigger] whole[n],
            ) by {
                if n < this.len() {
                    assert(whole[n] == this[n]);
                    crate::engine::lemma_pair_blocks_valid(
                        files[i].hashes(),
                        files[j].hashes(),
                        i,
                        j,
                        pair_minb(files, i, j, b, p),
                        false,
                        n,
                    );
                } else {
                    assert(whole[n] == rest[n - this.len()]);
                }
            }
        } else {
            assert(whole =~= rest);
            assert forall|n: int| 0 <= n < whole.len() implies detect_block_ok(
                files,
                b,
                p,
                #[trigger] whole[n],
            ) by {
                assert(whole[n] == rest[n]);
            }
        }
    }
}

/// Every block of one task is well-formed.
proof fn lemma_task_blocks_ok(files: Seq<SourceFile>, i: int, b: int, p: int, ig: bool)
    requires
        files.len() <= usize::MAX,
        forall|k: int|
            0 <= k < files.len() ==> (#[trigger] files[k]).source_lines@.len() <= usize::MAX,
        0 <= i < files.len(),
    ensures
        forall|n: int|
            0 <= n < task_blocks(files, i, b, p, ig).len() ==> detect_block_ok(
                files,
                b,
                p,
                #[trigger] task_blocks(files, i, b, p, ig)[n],
            ),
{
    lemma_partner_blocks_ok(files, i, i + 1, b, p, ig);
    let own = pair_blocks_spec(
        files[i].hashes(),
        files[i].hashes(),
        i,
        i,
        pair_minb(files, i, i, b, p),
        true,
    );
    let rest = partner_blocks_from(files, i, i + 1, b, p, ig);
    let whole = task_blocks(files, i, b, p, ig);
    assert forall|n: int| 0 <= n < whole.len() implies detect_block_ok(
        files,
        b,
        p,
        #[trigger] whole[n],
    ) by {
        if n < own.len() {
            assert(whole[n] == own[n]);
            crate::engine::lemma_pair_blocks_valid(
                files[i].hashes(),
                files[i].hashes(),
                i,
                i,
                pair_minb(files, i, i, b, p),
                true,
                n,
            );
        } else {
            assert(whole[n] == rest[n - own.len()]);
        }
    }
}

/// Block validity over a whole detection run: every reported block names
/// an ordered pair of corpus files, reaches that pair's effective minimum
/// block size, matches hash for hash along its length, pairs no position
/// of a file with itself, and cannot be extended at either end.
pub proof fn lemma_detect_blocks_ok(
    files: Seq<SourceFile>,
    lo: int,
    hi: int,
    b: int,
    p: int,
    ig: bool,
)
    requires
        files.len() <= usize::MAX,
        forall|k: int|
            0 <= k < files.len() ==> (#[trigger] files[k]).source_lines@.len() <= usize::MAX,
        hi <= files.len(),
    ensures
        forall|n: int|
            0 <= n < tasks_range(files, lo, hi, b, p, ig).len() ==> detect_block_ok(
                files,
                b,
                p,
                #[trigger] tasks_range(files, lo, hi, b, p, ig)[n],
            ),
    decreases hi - lo,
{
    if 0 <= lo < hi {
        lemma_task_blocks_ok(files, lo, b, p, ig);
        lemma_detect_blocks_ok(files, lo + 1, hi, b, p, ig);
        let own = task_blocks(files, lo, b, p, ig);
        let rest = tasks_range(files, lo + 1, hi, b, p, ig);
        let whole = tasks_range(files, lo, hi, b, p, ig);
        assert forall|n: int| 0 <= n < whole.len() implies detect_block_ok(
            files,
            b,
            p,
            #[trigger] whole[n],
        ) by {
            if n < own.len() {
                assert(whole[n] == own[n]);
            } else {
                assert(whole[n] == rest[n - own.len()]);
            }
        }
    }
}

/// Compute the blocks of one task: compare file `i` with itself and with
/// every selected later partner.
pub fn detect_blocks_for_file(
    i: usize,
    source_files: &Vec<SourceFile>,
    index: &HashMap<u32, Vec<usize>>,
    config: &Config,
    context: &mut ThreadContext,
) -> (blocks: Vec<Block>)
    requires
        index_ok(index@, source_files@),
        i < source_files@.len(),
        max_lines_spec(source_files@, source_files@.len() as int) * max_lines_spec(
            source_files@,
            source_files@.len() as int,
        ) <= old(context).matrix_len(),
    ensures
        blocks@ == task_blocks(
            source_files@,
            i as int,
            config.min_block_size as int,
            config.block_percent_threshold as int,
            config.ignore_same_filename,
        ),
        final(context).matrix_len() == old(context).matrix_len(),
{
    let ghost files = source_files@;
    let ghost b = config.min_block_size as int;
    let ghost p = config.block_percent_threshold as int;
    let ghost ig = config.ignore_same_filename;
    let nfiles = source_files.len();
    let matching = get_matching_files(i, source_files, index);
    proof {
        lemma_max_lines_bound(files, files.len() as int, i as int);
        crate::engine::lemma_mul_le_square(
            files[i as int].source_lines@.len() as int,
            files[i as int].source_lines@.len() as int,
            max_lines_spec(files, files.len() as int),
        );
    }
    let mut all_blocks = process_file_pair(
        &source_files[i],
        &source_files[i],
        i,
        i,
        config,
        context,
    );
    let mut j: usize = i + 1;
    while j < nfiles
        invariant
            i < files.len(),
            i + 1 <= j <= nfiles == files.len(),
            files == source_files@,
            index_ok(index@, files),
            matching@.len() == files.len(),
            forall|q: int| 0 <= q < matching@.len() ==> (matching@[q] <==> shares_hash(files, i as int, q)),
            b == config.min_block_size as int,
            p == config.block_percent_threshold as int,
            ig == config.ignore_same_filename,
            max_lines_spec(files, files.len() as int) * max_lines_spec(files, files.len() as int)
                <= context.matrix_len(),
            context.matrix_len() == old(context).matrix_len(),
            task_blocks(files, i as int, b, p, ig) =~= all_blocks@ + partner_blocks_from(
                files,
                i as int,
                j as int,
                b,
                p,
                ig,
            ),
        decreases nfiles - j,
    {
        let skip_name = config.ignore_same_filename && source_files[i].has_same_basename(
            &source_files[j],
        );
        if !skip_name && matching[j] {
            proof {
                lemma_max_lines_bound(files, files.len() as int, i as int);
                lemma_max_lines_bound(files, files.len() as int, j as int);
                crate::engine::lemma_mul_le_square(
                    files[i as int].source_lines@.len() as int,
                    files[j as int].source_lines@.len() as int,
                    max_lines_spec(files, files.len() as int),
                );
            }
            let ghost before = all_blocks@;
            let mut pair = process_file_pair(
                &source_files[i],
                &source_files[j],
                i,
                j,
                config,
                context,
            );
            let ghost pair_view = pair@;
            all_blocks.append(&mut pair);
            proof {
                assert(all_blocks@ =~= before + pair_view);
                assert(before + (pair_view + partner_blocks_from(
                    files,
                    i as int,
                    j as int + 1,
                    b,
                    p,
                    ig,
                )) =~= all_blocks@ + partner_blocks_from(files, i as int, j as int + 1, b, p, ig));
            }
        }
        j = j + 1;
    }
    proof {
        assert(partner_blocks_from(files, i as int, nfiles as int, b, p, ig) =~= Seq::<
            Block,
        >::empty());
        assert(all_blocks@ + Seq::<Block>::empty() =~= all_blocks@);
    }
    all_blocks
}

/// The largest cleaned-line count across the corpus.
pub fn max_cleaned_lines(source_files: &Vec<SourceFile>) -> (r: usize)
    ensures
        r == max_lines_spec(source_files@, source_files@.len() as int),
{
    let mut r: usize = 0;
    let mut i: usize = 0;
    while i < source_files.len()
        invariant
            0 <= i <= source_files@.len(),
            r == max_lines_spec(source_files@, i as int),
        decreases source_files@.len() - i,
    {
        let l = source_files[i].num_lines();
        if l > r {
            r = l;
        }
        i = i + 1;
    }
    r
}

/// Sum the counts of the given blocks, clamped at the machine word.
fn sum_counts_exec(blocks: &Vec<Block>) -> (r: usize)
    ensures
        r == sat_usize(sum_block_counts(blocks@)),
{
    let mut total: usize = 0;
    let mut i: usize = 0;
    while i < blocks.len()
        invariant
            0 <= i <= blocks@.len(),
            total == sat_usize(sum_block_counts(blocks@.take(i as int))),
        decreases blocks@.len() - i,
    {
        proof {
            assert(blocks@.take(i + 1).drop_last() =~= blocks@.take(i as int));
        }
        total = match total.checked_add(blocks[i].count) {
            Some(t) => t,
            None => usize::MAX,
        };
        i = i + 1;
    }
    proof {
        assert(blocks@.take(blocks@.len() as int) =~= blocks@);
    }
    total
}

/// Detect all duplicates in a loaded corpus: build the inverted index, run
/// every task in order, and aggregate the counters.
pub fn detect_duplicates(source_files: &Vec<SourceFile>, config: &Config) -> (r: DuploResult)
    requires
        max_lines_spec(source_files@, source_files@.len() as int) * max_lines_spec(
            source_files@,
            source_files@.len() as int,
        ) <= usize::MAX,
    ensures
        r.blocks@ == detect_blocks_spec(
            source_files@,
            crate::engine::spec_min(
                if config.files_to_check == 0 {
                    usize::MAX as int
                } else {
                    config.files_to_check as int
                },
                source_files@.len() as int,
            ),
            config.min_block_size as int,
            config.block_percent_threshold as int,
            config.ignore_same_filename,
        ),
        r.files_analyzed as int == crate::engine::spec_min(
            if config.files_to_check == 0 {
                usize::MAX as int
            } else {
                config.files_to_check as int
            },
            source_files@.len() as int,
        ),
        r.total_lines == sat_usize(total_lines_spec(source_files@, source_files@.len() as int)),
        r.duplicate_lines == sat_usize(sum_block_counts(r.blocks@)),
        r.duplicate_blocks == r.blocks@.len(),
{
    let ghost files = source_files@;
    let ghost b = config.min_block_size as int;
    let ghost p = config.block_percent_threshold as int;
    let ghost ig = config.ignore_same_filename;
    let nfiles = source_files.len();

    let max_lines = max_cleaned_lines(source_files);
    let mut context = ThreadContext::new(max_lines);
    let index = build_hash_index(source_files);

    let eff = config.effective_files_to_check();
    let files_to_check = if eff < nfiles {
        eff
    } else {
        nfiles
    };

    let mut all_blocks: Vec<Block> = Vec::new();
    let mut i: usize = 0;
    while i < files_to_check
        invariant
            0 <= i <= files_to_check <= nfiles == files.len(),
            files == source_files@,
            index_ok(index@, files),
            b == config.min_block_size as int,
            p == config.block_percent_threshold as int,
            ig == config.ignore_same_filename,
            context.matrix_len() == max_lines_spec(files, files.len() as int) * max_lines_spec(
                files,
                files.len() as int,
            ),
            tasks_range(files, 0, files_to_check as int, b, p, ig) =~= all_blocks@ + tasks_range(
                files,
                i as int,
                files_to_check as int,
                b,
                p,
                ig,
            ),
        decreases files_to_check - i,
    {
        let ghost before = all_blocks@;
        let mut task = detect_blocks_for_file(i, source_files, &index, config, &mut context);
        let ghost task_view = task@;
        all_blocks.append(&mut task);
        proof {
            assert(all_blocks@ =~= before + task_view);
            assert(before + (task_view + tasks_range(
                files,
                i as int + 1,
                files_to_check as int,
                b,
                p,
                ig,
            )) =~= all_blocks@ + tasks_range(files, i as int + 1, files_to_check as int, b, p, ig));
        }
        i = i + 1;
    }
    proof {
        assert(tasks_range(files, files_to_check as int, files_to_check as int, b, p, ig) =~= Seq::<
            Block,
        >::empty());
        assert(all_blocks@ + Seq::<Block>::empty() =~= all_blocks@);
    }

    // Aggregate counters.
    let mut total_lines: usize = 0;
    let mut z: usize = 0;
    while z < nfiles
        invariant
            0 <= z <= nfiles == files.len(),
            files == source_files@,
            total_lines == sat_usize(total_lines_spec(files, z as int)),
        decreases nfiles - z,
    {
        total_lines = match total_lines.checked_add(source_files[z].num_lines()) {
            Some(t) => t,
            None => usize::MAX,
        };
        z = z + 1;
    }
    let duplicate_lines = sum_counts_exec(&all_blocks);
    let duplicate_blocks = all_blocks.len();

    DuploResult {
        blocks: all_blocks,
        files_analyzed: files_to_check,
        total_lines,
        duplicate_lines,
        duplicate_blocks,
    }
}

/// The paths of a file list worth keeping: those whose trimmed text is
/// longer than five bytes.
pub open spec fn kept_paths(lines: Seq<Seq<char>>, i: int) -> Seq<Seq<char>>
    decreases lines.len() - i,
{
    if i < 0 || i >= lines.len() {
        Seq::empty()
    } else {
        let rest = kept_paths(lines, i + 1);
        if vstd::utf8::encode_utf8(crate::text::trim_spec(lines[i])).len() > 5 {
            seq![lines[i]] + rest
        } else {
            rest
        }
    }
}

/// Keep the entries of a file list that name real paths: short and
/// whitespace-only lines are discarded.
pub fn filter_file_list(lines: &Vec<String>) -> (r: Vec<String>)
    ensures
        r@.map_values(|s: String| s@) == kept_paths(lines@.map_values(|s: String| s@), 0),
{
    let ghost all = lines@.map_values(|s: String| s@);
    let mut r: Vec<String> = Vec::new();
    let mut idx: usize = 0;
    while idx < lines.len()
        invariant
            0 <= idx <= lines@.len(),
            all == lines@.map_values(|s: String| s@),
            all.len() == lines@.len(),
            kept_paths(all, 0) =~= r@.map_values(|s: String| s@) + kept_paths(all, idx as int),
        decreases lines@.len() - idx,
    {
        let ghost prev = r@.map_values(|s: String| s@);
        let trimmed = crate::filetype::common::clean_whitespace(lines[idx].as_str());
        proof {
            assert(all[idx as int] == lines@[idx as int]@);
        }
        if trimmed.as_str().as_bytes().len() > 5 {
            r.push(lines[idx].clone());
            proof {
                assert(r@.map_values(|s: String| s@) =~= prev.push(all[idx as int]));
                assert(prev + (seq![all[idx as int]] + kept_paths(all, idx as int + 1)) =~= r@.map_values(
                    |s: String| s@,
                ) + kept_paths(all, idx as int + 1));
            }
        }
        idx = idx + 1;
    }
    proof {
        assert(kept_paths(all, idx as int) =~= Seq::<Seq<char>>::empty());
        assert(r@.map_values(|s: String| s@) + Seq::<Seq<char>>::empty() =~= r@.map_values(
            |s: String| s@,
        ));
    }
    r
}

/// Whether one scratch matrix of `max_lines` squared bits stays within the
/// memory ceiling of eight billion bits.
pub fn matrix_fits(max_lines: usize) -> (r: bool)
    ensures
        r == (max_lines * max_lines <= 8_000_000_000),
{
    let a = max_lines as u128;
    proof {
        assert(a * a <= u128::MAX) by (nonlinear_arith)
            requires
                0 <= a <= 0xffff_ffff_ffff_ffffu128,
        ;
    }
    a * a <= 8_000_000_000u128
}

/// The largest per-file line count whose squared matrix, one per thread,
/// stays within the memory ceiling: the integer square root of the
/// per-thread bit budget.
pub fn max_lines_for_threads(num_threads: usize) -> (r: usize)
    requires
        num_threads >= 1,
    ensures
        (r as int) * (r as int) <= 8_000_000_000int / (num_threads as int),
        (r as int + 1) * (r as int + 1) > 8_000_000_000int / (num_threads as int),
{
    let budget: u64 = 8_000_000_000u64 / (num_threads as u64);
    let mut lo: u64 = 0;
    let mut hi: u64 = 89443;
    proof {
        assert(89444u64 * 89444u64 > 8_000_000_000);
        assert(budget <= 8_000_000_000);
    }
    while lo < hi
        invariant
            0 <= lo <= hi <= 89443,
            budget == 8_000_000_000int / (num_threads as int),
            budget <= 8_000_000_000,
            (lo as int) * (lo as int) <= budget,
            (hi as int + 1) * (hi as int + 1) > budget,
        decreases hi - lo,
    {
        let mid = (lo + hi + 1) / 2;
        proof {
            assert(mid * mid <= 89443u64 * 89443u64) by (nonlinear_arith)
                requires
                    0 <= mid <= 89443u64,
            ;
        }
        if mid * mid <= budget {
            lo = mid;
        } else {
            hi = mid - 1;
        }
    }
    lo as usize
}

} // verus!
