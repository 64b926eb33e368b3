//! The pairwise match engine.
//!
//! For a pair of files it builds a boolean match matrix over line hashes in
//! a reusable bit vector and extracts every maximal diagonal run of matching
//! lines of at least the effective minimum length.

use vstd::prelude::*;

verus! {

use crate::block::Block;
use crate::config::Config;
use crate::source_file::SourceFile;

/// A growable bit vector, backed by `bitvec`. Verus sees it only through
/// `bits_of` and the trusted accessors below.
#[verifier::external_body]
pub struct BitGrid {
    bits: bitvec::vec::BitVec,
}

/// The bits held by a bit grid, in order.
pub uninterp spec fn bits_of(v: BitGrid) -> Seq<bool>;

/// Relies on `BitVec::repeat`: a vector of `len` copies of the given bit.
#[verifier::external_body]
fn bitvec_new(len: usize) -> (v: BitGrid)
    ensures
        bits_of(v) == Seq::new(len as nat, |i: int| false),
{
    BitGrid { bits: bitvec::vec::BitVec::repeat(false, len) }
}

/// Relies on `BitSlice::len`: the number of bits.
#[verifier::external_body]
fn bitvec_len(v: &BitGrid) -> (n: usize)
    ensures
        n == bits_of(*v).len(),
{
    v.bits.len()
}

/// Relies on `BitSlice::set`: writes one bit in place; in range it cannot
/// panic.
#[verifier::external_body]
fn bitvec_set(v: &mut BitGrid, i: usize, b: bool)
    requires
        i < bits_of(*old(v)).len(),
    ensures
        bits_of(*final(v)) == bits_of(*old(v)).update(i as int, b),
{
    v.bits.set(i, b);
}

/// Relies on `BitSlice` indexing: reads one bit; in range it cannot panic.
#[verifier::external_body]
fn bitvec_get(v: &BitGrid, i: usize) -> (b: bool)
    requires
        i < bits_of(*v).len(),
    ensures
        b == bits_of(*v)[i as int],
{
    v.bits[i]
}

/// Relies on `BitSlice::fill` through range indexing: clears the first
/// `size` bits and leaves the rest.
#[verifier::external_body]
fn bitvec_clear_prefix(v: &mut BitGrid, size: usize)
    requires
        size <= bits_of(*old(v)).len(),
    ensures
        bits_of(*final(v)) == Seq::new(
            bits_of(*old(v)).len(),
            |i: int|
                if i < size {
                    false
                } else {
                    bits_of(*old(v))[i]
                },
        ),
{
    v.bits[..size].fill(false);
}

/// Per-worker scratch state: a reusable bit matrix sized for the largest
/// file.
pub struct ThreadContext {
    /// The match matrix, row-major: cell (row, col) of an `m` by `n`
    /// comparison lives at bit `col + n * row`.
    pub matrix: BitGrid,
}

impl ThreadContext {
    /// The number of bits the scratch matrix holds.
    pub open spec fn matrix_len(self) -> nat {
        bits_of(self.matrix).len()
    }

    /// Allocate a scratch matrix able to compare files of up to `max_lines`
    /// lines.
    pub fn new(max_lines: usize) -> (r: Self)
        requires
            max_lines * max_lines <= usize::MAX,
        ensures
            r.matrix_len() == max_lines * max_lines,
    {
        ThreadContext { matrix: bitvec_new(max_lines * max_lines) }
    }

    /// Clear the portion of the matrix a new comparison will use.
    pub fn reset_matrix(&mut self, m: usize, n: usize)
        requires
            m * n <= old(self).matrix_len(),
        ensures
            final(self).matrix_len() == old(self).matrix_len(),
            forall|i: int| 0 <= i < m * n ==> !bits_of(final(self).matrix)[i],
    {
        let len = bitvec_len(&self.matrix);
        let size = m * n;
        bitvec_clear_prefix(&mut self.matrix, size);
    }
}

/// The effective minimum block size, from the configured minimum `b`, the
/// percent threshold `p`, and the two file lengths. The formula never
/// exceeds `b`.
pub open spec fn calc_min_block_size_spec(b: int, p: int, m: int, n: int) -> int {
    let longer = if m >= n {
        m
    } else {
        n
    };
    if p > 0 {
        let t = (longer * 100) / p;
        let inner = if b <= t {
            b
        } else {
            t
        };
        if b >= inner {
            b
        } else {
            inner
        }
    } else {
        b
    }
}

/// Compute the effective minimum block size for an `m` by `n` comparison.
pub fn calc_min_block_size(config: &Config, m: usize, n: usize) -> (r: usize)
    requires
        m <= usize::MAX,
        n <= usize::MAX,
    ensures
        r == calc_min_block_size_spec(
            config.min_block_size as int,
            config.block_percent_threshold as int,
            m as int,
            n as int,
        ),
        r == config.min_block_size,
{
    let b = config.min_block_size;
    if config.block_percent_threshold > 0 {
        let longer: u128 = if m >= n {
            m as u128
        } else {
            n as u128
        };
        let t: u128 = (longer * 100) / (config.block_percent_threshold as u128);
        let inner: u128 = if (b as u128) <= t {
            b as u128
        } else {
            t
        };
        let outer: u128 = if (b as u128) >= inner {
            b as u128
        } else {
            inner
        };
        outer as usize
    } else {
        b as usize
    }
}

/// Two factors each below a bound multiply to at most the bound squared.
pub proof fn lemma_mul_le_square(a: int, b: int, c: int)
    requires
        0 <= a <= c,
        0 <= b <= c,
    ensures
        a * b <= c * c,
{
    assert(a * b <= c * c) by (nonlinear_arith)
        requires
            0 <= a <= c,
            0 <= b <= c,
    ;
}

/// The smaller of two integers.
pub open spec fn spec_min(a: int, b: int) -> int {
    if a <= b {
        a
    } else {
        b
    }
}

/// Line `y` of the first file and line `x` of the second carry the same
/// hash.
pub open spec fn match_at(h1: Seq<u32>, h2: Seq<u32>, y: int, x: int) -> bool {
    0 <= y < h1.len() && 0 <= x < h2.len() && h1[y] == h2[x]
}

/// The number of cells on the diagonal that starts at `(y0, x0)`.
pub open spec fn diag_limit(h1: Seq<u32>, h2: Seq<u32>, y0: int, x0: int) -> int {
    spec_min(h1.len() - y0, h2.len() - x0)
}

/// The block recording `run` matching lines ending just before offset `k`
/// of the diagonal starting at `(y0, x0)`.
pub open spec fn run_block(i1: int, i2: int, y0: int, x0: int, k: int, run: int) -> Block {
    Block {
        source1_idx: i1 as usize,
        source2_idx: i2 as usize,
        line1: (y0 + k - run) as usize,
        line2: (x0 + k - run) as usize,
        count: run as usize,
    }
}

/// A run is reported when it reaches the effective minimum and, within a
/// single file, does not pair a position with itself.
pub open spec fn emit_ok(y0: int, x0: int, run: int, minb: int, same: bool) -> bool {
    run >= minb && (!same || y0 != x0)
}

/// The blocks found along one diagonal from offset `k` on, with `run`
/// matching cells accumulated immediately before `k`. Runs end where a cell
/// stops matching or the diagonal ends; each long enough is reported.
pub open spec fn scan_diag(
    h1: Seq<u32>,
    h2: Seq<u32>,
    i1: int,
    i2: int,
    y0: int,
    x0: int,
    k: int,
    run: int,
    minb: int,
    same: bool,
) -> Seq<Block>
    decreases diag_limit(h1, h2, y0, x0) - k,
{
    if k < 0 || k >= diag_limit(h1, h2, y0, x0) {
        if emit_ok(y0, x0, run, minb, same) {
            seq![run_block(i1, i2, y0, x0, k, run)]
        } else {
            Seq::empty()
        }
    } else if match_at(h1, h2, y0 + k, x0 + k) {
        scan_diag(h1, h2, i1, i2, y0, x0, k + 1, run + 1, minb, same)
    } else {
        (if emit_ok(y0, x0, run, minb, same) {
            seq![run_block(i1, i2, y0, x0, k, run)]
        } else {
            Seq::empty()
        }) + scan_diag(h1, h2, i1, i2, y0, x0, k + 1, 0, minb, same)
    }
}

/// The blocks of the vertical pass, over diagonals starting at `(y, 0)` for
/// `y` and up.
pub open spec fn vert_blocks_from(
    h1: Seq<u32>,
    h2: Seq<u32>,
    i1: int,
    i2: int,
    y: int,
    minb: int,
    same: bool,
) -> Seq<Block>
    decreases h1.len() - y,
{
    if y < 0 || y >= h1.len() {
        Seq::empty()
    } else {
        scan_diag(h1, h2, i1, i2, y, 0, 0, 0, minb, same) + vert_blocks_from(
            h1,
            h2,
            i1,
            i2,
            y + 1,
            minb,
            same,
        )
    }
}

/// The blocks of the horizontal pass, over diagonals starting at `(0, x)`
/// for `x` and up.
pub open spec fn horiz_blocks_from(
    h1: Seq<u32>,
    h2: Seq<u32>,
    i1: int,
    i2: int,
    x: int,
    minb: int,
) -> Seq<Block>
    decreases h2.len() - x,
{
    if x < 1 || x >= h2.len() {
        Seq::empty()
    } else {
        scan_diag(h1, h2, i1, i2, 0, x, 0, 0, minb, false) + horiz_blocks_from(
            h1,
            h2,
            i1,
            i2,
            x + 1,
            minb,
        )
    }
}

/// Every block a pair of files yields: all maximal diagonal runs, from the
/// vertical pass and then, for distinct files, the horizontal pass.
pub open spec fn pair_blocks_spec(
    h1: Seq<u32>,
    h2: Seq<u32>,
    i1: int,
    i2: int,
    minb: int,
    same: bool,
) -> Seq<Block> {
    if h1.len() == 0 || h2.len() == 0 {
        Seq::empty()
    } else if same {
        vert_blocks_from(h1, h2, i1, i2, 0, minb, true)
    } else {
        vert_blocks_from(h1, h2, i1, i2, 0, minb, false) + horiz_blocks_from(
            h1,
            h2,
            i1,
            i2,
            1,
            minb,
        )
    }
}

/// The bit holding cell `(r, c)` of a row-major `n`-column matrix.
pub open spec fn grid_cell(bits: Seq<bool>, n: int, r: int, c: int) -> bool {
    bits[c + n * r]
}

/// The first `m * n` bits hold the match matrix of `h1` against `h2`.
pub open spec fn grid_models(bits: Seq<bool>, h1: Seq<u32>, h2: Seq<u32>) -> bool {
    forall|r: int, c: int|
        0 <= r < h1.len() && 0 <= c < h2.len() ==> #[trigger] grid_cell(
            bits,
            h2.len() as int,
            r,
            c,
        ) == (h1[r] == h2[c])
}

/// A cell of an `m` by `n` matrix lies inside the first `m * n` bits.
proof fn lemma_cell_index_bound(r: int, c: int, m: int, n: int)
    requires
        0 <= r < m,
        0 <= c < n,
    ensures
        0 <= c + n * r,
        c + n * r < m * n,
{
    assert(c + n * r < m * n) by (nonlinear_arith)
        requires
            0 <= r < m,
            0 <= c < n,
    ;
    assert(0 <= c + n * r) by (nonlinear_arith)
        requires
            0 <= r,
            0 <= c,
            0 <= n,
    ;
}

/// Distinct cells of an `n`-column matrix occupy distinct bits.
proof fn lemma_cell_index_inj(r1: int, c1: int, r2: int, c2: int, n: int)
    requires
        0 <= c1 < n,
        0 <= c2 < n,
        0 <= r1,
        0 <= r2,
        c1 + n * r1 == c2 + n * r2,
    ensures
        r1 == r2,
        c1 == c2,
{
    assert(r1 == r2 && c1 == c2) by (nonlinear_arith)
        requires
            0 <= c1 < n,
            0 <= c2 < n,
            c1 + n * r1 == c2 + n * r2,
    ;
}

/// Validity and maximality of an emitted block: it names the pair's
/// indices, reaches the effective minimum, lies inside both files, matches
/// hash for hash along its diagonal, never pairs a position of one file
/// with itself, and extending it by one line at either end would break
/// hash equality or leave the files.
pub open spec fn block_valid_spec(
    h1: Seq<u32>,
    h2: Seq<u32>,
    i1: int,
    i2: int,
    minb: int,
    same: bool,
    b: Block,
) -> bool {
    &&& b.source1_idx == i1
    &&& b.source2_idx == i2
    &&& b.count >= minb
    &&& b.line1 + b.count <= h1.len()
    &&& b.line2 + b.count <= h2.len()
    &&& (same ==> b.line1 != b.line2)
    &&& forall|q: int| 0 <= q < b.count ==> #[trigger] h1[b.line1 + q] == h2[b.line2 + q]
    &&& !match_at(h1, h2, b.line1 - 1, b.line2 - 1)
    &&& !match_at(h1, h2, b.line1 + b.count, b.line2 + b.count)
}

/// Every block of one diagonal scan is valid and maximal, given that the
/// accumulated run really matches and started at the diagonal's edge or
/// right after a mismatch.
proof fn lemma_scan_diag_valid(
    h1: Seq<u32>,
    h2: Seq<u32>,
    i1: int,
    i2: int,
    y0: int,
    x0: int,
    k: int,
    run: int,
    minb: int,
    same: bool,
)
    requires
        0 <= i1 <= usize::MAX,
        0 <= i2 <= usize::MAX,
        h1.len() <= usize::MAX,
        h2.len() <= usize::MAX,
        0 <= y0,
        0 <= x0,
        y0 == 0 || x0 == 0,
        0 <= run <= k,
        k <= diag_limit(h1, h2, y0, x0),
        forall|j: int| k - run <= j < k ==> #[trigger] match_at(h1, h2, y0 + j, x0 + j),
        run == k || !match_at(h1, h2, y0 + (k - run) - 1, x0 + (k - run) - 1),
    ensures
        forall|n: int|
            0 <= n < scan_diag(h1, h2, i1, i2, y0, x0, k, run, minb, same).len()
                ==> block_valid_spec(
                h1,
                h2,
                i1,
                i2,
                minb,
                same,
                #[trigger] scan_diag(h1, h2, i1, i2, y0, x0, k, run, minb, same)[n],
            ),
    decreases diag_limit(h1, h2, y0, x0) - k,
{
    let limit = diag_limit(h1, h2, y0, x0);
    if k >= limit {
        if emit_ok(y0, x0, run, minb, same) {
            let b = run_block(i1, i2, y0, x0, k, run);
            assert(b.line1 == y0 + k - run && b.line2 == x0 + k - run && b.count == run);
            assert forall|q: int| 0 <= q < b.count implies #[trigger] h1[b.line1 + q] == h2[b.line2
                + q] by {
                assert(match_at(h1, h2, y0 + (k - run + q), x0 + (k - run + q)));
            }
            assert(!match_at(h1, h2, b.line1 - 1, b.line2 - 1));
            assert(y0 + limit == h1.len() || x0 + limit == h2.len());
            assert(!match_at(h1, h2, b.line1 + b.count, b.line2 + b.count));
            assert(block_valid_spec(h1, h2, i1, i2, minb, same, b));
            let s = scan_diag(h1, h2, i1, i2, y0, x0, k, run, minb, same);
            assert forall|n: int| 0 <= n < s.len() implies block_valid_spec(
                h1,
                h2,
                i1,
                i2,
                minb,
                same,
                #[trigger] s[n],
            ) by {
                assert(s[n] == b);
            }
        }
    } else if match_at(h1, h2, y0 + k, x0 + k) {
        lemma_scan_diag_valid(h1, h2, i1, i2, y0, x0, k + 1, run + 1, minb, same);
        let s = scan_diag(h1, h2, i1, i2, y0, x0, k, run, minb, same);
        let nx = scan_diag(h1, h2, i1, i2, y0, x0, k + 1, run + 1, minb, same);
        assert(s =~= nx);
        assert forall|n: int| 0 <= n < s.len() implies block_valid_spec(
            h1,
            h2,
            i1,
            i2,
            minb,
            same,
            #[trigger] s[n],
        ) by {
            assert(s[n] == nx[n]);
        }
    } else {
        lemma_scan_diag_valid(h1, h2, i1, i2, y0, x0, k + 1, 0, minb, same);
        if !emit_ok(y0, x0, run, minb, same) {
            assert(scan_diag(h1, h2, i1, i2, y0, x0, k, run, minb, same) =~= scan_diag(
                h1,
                h2,
                i1,
                i2,
                y0,
                x0,
                k + 1,
                0,
                minb,
                same,
            ));
        }
        if emit_ok(y0, x0, run, minb, same) {
            let b = run_block(i1, i2, y0, x0, k, run);
            assert forall|q: int| 0 <= q < b.count implies #[trigger] h1[b.line1 + q] == h2[b.line2
                + q] by {
                assert(match_at(h1, h2, y0 + (k - run + q), x0 + (k - run + q)));
            }
            assert(!match_at(h1, h2, b.line1 - 1, b.line2 - 1));
            assert(!match_at(h1, h2, b.line1 + b.count, b.line2 + b.count));
            let s = scan_diag(h1, h2, i1, i2, y0, x0, k, run, minb, same);
            let rest = scan_diag(h1, h2, i1, i2, y0, x0, k + 1, 0, minb, same);
            assert forall|n: int| 0 <= n < s.len() implies block_valid_spec(
                h1,
                h2,
                i1,
                i2,
                minb,
                same,
                #[trigger] s[n],
            ) by {
                if n == 0 {
                    assert(s[0] == b);
                } else {
                    assert(s[n] == rest[n - 1]);
                }
            }
        }
    }
}

/// Every block of the vertical pass is valid and maximal.
proof fn lemma_vert_blocks_valid(
    h1: Seq<u32>,
    h2: Seq<u32>,
    i1: int,
    i2: int,
    y: int,
    minb: int,
    same: bool,
)
    requires
        0 <= i1 <= usize::MAX,
        0 <= i2 <= usize::MAX,
        h1.len() <= usize::MAX,
        h2.len() <= usize::MAX,
        0 <= y,
    ensures
        forall|n: int|
            0 <= n < vert_blocks_from(h1, h2, i1, i2, y, minb, same).len() ==> block_valid_spec(
                h1,
                h2,
                i1,
                i2,
                minb,
                same,
                #[trigger] vert_blocks_from(h1, h2, i1, i2, y, minb, same)[n],
            ),
    decreases h1.len() - y,
{
    if 0 <= y < h1.len() {
        lemma_scan_diag_valid(h1, h2, i1, i2, y, 0, 0, 0, minb, same);
        lemma_vert_blocks_valid(h1, h2, i1, i2, y + 1, minb, same);
        let s = scan_diag(h1, h2, i1, i2, y, 0, 0, 0, minb, same);
        let rest = vert_blocks_from(h1, h2, i1, i2, y + 1, minb, same);
        let whole = vert_blocks_from(h1, h2, i1, i2, y, minb, same);
        assert forall|n: int| 0 <= n < whole.len() implies block_valid_spec(
            h1,
            h2,
            i1,
            i2,
            minb,
            same,
            #[trigger] whole[n],
        ) by {
            if n < s.len() {
                assert(whole[n] == s[n]);
            } else {
                assert(whole[n] == rest[n - s.len()]);
            }
        }
    }
}

/// Every block of the horizontal pass is valid and maximal.
proof fn lemma_horiz_blocks_valid(
    h1: Seq<u32>,
    h2: Seq<u32>,
    i1: int,
    i2: int,
    x: int,
    minb: int,
)
    requires
        0 <= i1 <= usize::MAX,
        0 <= i2 <= usize::MAX,
        h1.len() <= usize::MAX,
        h2.len() <= usize::MAX,
        1 <= x,
    ensures
        forall|n: int|
            0 <= n < horiz_blocks_from(h1, h2, i1, i2, x, minb).len() ==> block_valid_spec(
                h1,
                h2,
                i1,
                i2,
                minb,
                false,
                #[trigger] horiz_blocks_from(h1, h2, i1, i2, x, minb)[n],
            ),
    decreases h2.len() - x,
{
    if 1 <= x < h2.len() {
        lemma_scan_diag_valid(h1, h2, i1, i2, 0, x, 0, 0, minb, false);
        lemma_horiz_blocks_valid(h1, h2, i1, i2, x + 1, minb);
        let s = scan_diag(h1, h2, i1, i2, 0, x, 0, 0, minb, false);
        let rest = horiz_blocks_from(h1, h2, i1, i2, x + 1, minb);
        let whole = horiz_blocks_from(h1, h2, i1, i2, x, minb);
        assert forall|n: int| 0 <= n < whole.len() implies block_valid_spec(
            h1,
            h2,
            i1,
            i2,
            minb,
            false,
            #[trigger] whole[n],
        ) by {
            if n < s.len() {
                assert(whole[n] == s[n]);
            } else {
                assert(whole[n] == rest[n - s.len()]);
            }
        }
    }
}

/// Block validity and diagonal maximality: every block a pair of files
/// yields names the pair, reaches the effective minimum, lies inside both
/// files, matches hash for hash along its whole length, pairs no position
/// of a file with itself, and cannot be extended at either end without
/// breaking hash equality or leaving the files.
pub proof fn lemma_pair_blocks_valid(
    h1: Seq<u32>,
    h2: Seq<u32>,
    i1: int,
    i2: int,
    minb: int,
    same: bool,
    n: int,
)
    requires
        0 <= i1 <= usize::MAX,
        0 <= i2 <= usize::MAX,
        h1.len() <= usize::MAX,
        h2.len() <= usize::MAX,
        0 <= n < pair_blocks_spec(h1, h2, i1, i2, minb, same).len(),
    ensures
        block_valid_spec(h1, h2, i1, i2, minb, same, pair_blocks_spec(
            h1,
            h2,
            i1,
            i2,
            minb,
            same,
        )[n]),
{
    lemma_vert_blocks_valid(h1, h2, i1, i2, 0, minb, same);
    if !same {
        lemma_horiz_blocks_valid(h1, h2, i1, i2, 1, minb);
        let v = vert_blocks_from(h1, h2, i1, i2, 0, minb, same);
        let hz = horiz_blocks_from(h1, h2, i1, i2, 1, minb);
        if h1.len() > 0 && h2.len() > 0 {
            if n < v.len() {
                assert(pair_blocks_spec(h1, h2, i1, i2, minb, same)[n] == v[n]);
            } else {
                assert(pair_blocks_spec(h1, h2, i1, i2, minb, same)[n] == hz[n - v.len()]);
            }
        }
    }
}

/// A block with its two sides exchanged.
pub open spec fn swap_block(b: Block) -> Block {
    Block {
        source1_idx: b.source2_idx,
        source2_idx: b.source1_idx,
        line1: b.line2,
        line2: b.line1,
        count: b.count,
    }
}

/// A block sequence with every block's sides exchanged.
pub open spec fn swap_blocks(s: Seq<Block>) -> Seq<Block> {
    s.map_values(|b: Block| swap_block(b))
}

/// One diagonal scanned in the swapped orientation yields exactly the
/// swapped blocks.
proof fn lemma_scan_swap(
    h1: Seq<u32>,
    h2: Seq<u32>,
    i1: int,
    i2: int,
    y0: int,
    x0: int,
    k: int,
    run: int,
    minb: int,
)
    requires
        0 <= i1 <= usize::MAX,
        0 <= i2 <= usize::MAX,
        h1.len() <= usize::MAX,
        h2.len() <= usize::MAX,
        0 <= y0,
        0 <= x0,
        0 <= run <= k,
        k <= diag_limit(h1, h2, y0, x0),
    ensures
        scan_diag(h2, h1, i2, i1, x0, y0, k, run, minb, false) == swap_blocks(
            scan_diag(h1, h2, i1, i2, y0, x0, k, run, minb, false),
        ),
    decreases diag_limit(h1, h2, y0, x0) - k,
{
    let limit = diag_limit(h1, h2, y0, x0);
    assert(diag_limit(h2, h1, x0, y0) == limit);
    if k >= limit {
        if emit_ok(x0, y0, run, minb, false) {
            assert(swap_block(run_block(i1, i2, y0, x0, k, run)) == run_block(
                i2,
                i1,
                x0,
                y0,
                k,
                run,
            ));
            assert(scan_diag(h2, h1, i2, i1, x0, y0, k, run, minb, false) =~= swap_blocks(
                scan_diag(h1, h2, i1, i2, y0, x0, k, run, minb, false),
            ));
        } else {
            assert(scan_diag(h2, h1, i2, i1, x0, y0, k, run, minb, false) =~= swap_blocks(
                scan_diag(h1, h2, i1, i2, y0, x0, k, run, minb, false),
            ));
        }
    } else if match_at(h1, h2, y0 + k, x0 + k) {
        assert(match_at(h2, h1, x0 + k, y0 + k));
        lemma_scan_swap(h1, h2, i1, i2, y0, x0, k + 1, run + 1, minb);
    } else {
        assert(!match_at(h2, h1, x0 + k, y0 + k));
        lemma_scan_swap(h1, h2, i1, i2, y0, x0, k + 1, 0, minb);
        assert(swap_block(run_block(i1, i2, y0, x0, k, run)) == run_block(i2, i1, x0, y0, k, run));
        assert(scan_diag(h2, h1, i2, i1, x0, y0, k, run, minb, false) =~= swap_blocks(
            scan_diag(h1, h2, i1, i2, y0, x0, k, run, minb, false),
        ));
    }
}

/// The vertical pass of the swapped pair yields the swapped horizontal
/// blocks, diagonal for diagonal, from column `x` on.
proof fn lemma_vert_swap(h1: Seq<u32>, h2: Seq<u32>, i1: int, i2: int, x: int, minb: int)
    requires
        0 <= i1 <= usize::MAX,
        0 <= i2 <= usize::MAX,
        h1.len() <= usize::MAX,
        h2.len() <= usize::MAX,
        1 <= x,
    ensures
        vert_blocks_from(h2, h1, i2, i1, x, minb, false) == swap_blocks(
            horiz_blocks_from(h1, h2, i1, i2, x, minb),
        ),
    decreases h2.len() - x,
{
    if x < h2.len() {
        lemma_scan_swap(h1, h2, i1, i2, 0, x, 0, 0, minb);
        lemma_vert_swap(h1, h2, i1, i2, x + 1, minb);
        assert(vert_blocks_from(h2, h1, i2, i1, x, minb, false) =~= swap_blocks(
            horiz_blocks_from(h1, h2, i1, i2, x, minb),
        ));
    } else {
        assert(vert_blocks_from(h2, h1, i2, i1, x, minb, false) =~= swap_blocks(
            horiz_blocks_from(h1, h2, i1, i2, x, minb),
        ));
    }
}

/// The horizontal pass of the swapped pair yields the swapped vertical
/// blocks, diagonal for diagonal, from row `y` on.
proof fn lemma_horiz_swap(h1: Seq<u32>, h2: Seq<u32>, i1: int, i2: int, y: int, minb: int)
    requires
        0 <= i1 <= usize::MAX,
        0 <= i2 <= usize::MAX,
        h1.len() <= usize::MAX,
        h2.len() <= usize::MAX,
        1 <= y,
    ensures
        horiz_blocks_from(h2, h1, i2, i1, y, minb) == swap_blocks(
            vert_blocks_from(h1, h2, i1, i2, y, minb, false),
        ),
    decreases h1.len() - y,
{
    if y < h1.len() {
        lemma_scan_swap(h1, h2, i1, i2, y, 0, 0, 0, minb);
        lemma_horiz_swap(h1, h2, i1, i2, y + 1, minb);
        assert(horiz_blocks_from(h2, h1, i2, i1, y, minb) =~= swap_blocks(
            vert_blocks_from(h1, h2, i1, i2, y, minb, false),
        ));
    } else {
        assert(horiz_blocks_from(h2, h1, i2, i1, y, minb) =~= swap_blocks(
            vert_blocks_from(h1, h2, i1, i2, y, minb, false),
        ));
    }
}

/// Orientation invariance for a pair of distinct files: comparing the pair
/// in the other order exchanges each block's two sides but leaves the
/// multiset of blocks unchanged, so block fingerprints do not depend on
/// which file of the pair comes first.
pub proof fn lemma_pair_orientation(h1: Seq<u32>, h2: Seq<u32>, i1: int, i2: int, minb: int)
    requires
        0 <= i1 <= usize::MAX,
        0 <= i2 <= usize::MAX,
        h1.len() <= usize::MAX,
        h2.len() <= usize::MAX,
    ensures
        pair_blocks_spec(h2, h1, i2, i1, minb, false).to_multiset() == swap_blocks(
            pair_blocks_spec(h1, h2, i1, i2, minb, false),
        ).to_multiset(),
{
    broadcast use vstd::multiset::group_multiset_axioms;

    if h1.len() == 0 || h2.len() == 0 {
        assert(pair_blocks_spec(h2, h1, i2, i1, minb, false) =~= Seq::<Block>::empty());
        assert(swap_blocks(pair_blocks_spec(h1, h2, i1, i2, minb, false)) =~= Seq::<
            Block,
        >::empty());
    } else {
        let m = scan_diag(h1, h2, i1, i2, 0, 0, 0, 0, minb, false);
        let v1 = vert_blocks_from(h1, h2, i1, i2, 1, minb, false);
        let hz = horiz_blocks_from(h1, h2, i1, i2, 1, minb);

        // The swapped pair's vertical pass: its main diagonal is the
        // swapped main diagonal, and its later diagonals are the swapped
        // horizontal pass.
        lemma_scan_swap(h1, h2, i1, i2, 0, 0, 0, 0, minb);
        lemma_vert_swap(h1, h2, i1, i2, 1, minb);
        assert(vert_blocks_from(h2, h1, i2, i1, 0, minb, false) == scan_diag(
            h2,
            h1,
            i2,
            i1,
            0,
            0,
            0,
            0,
            minb,
            false,
        ) + vert_blocks_from(h2, h1, i2, i1, 1, minb, false));
        // The swapped pair's horizontal pass is the swapped vertical rest.
        lemma_horiz_swap(h1, h2, i1, i2, 1, minb);

        let left = pair_blocks_spec(h2, h1, i2, i1, minb, false);
        assert(left =~= (swap_blocks(m) + swap_blocks(hz)) + swap_blocks(v1));

        let right = swap_blocks(pair_blocks_spec(h1, h2, i1, i2, minb, false));
        assert(vert_blocks_from(h1, h2, i1, i2, 0, minb, false) == m + v1);
        assert(right =~= (swap_blocks(m) + swap_blocks(v1)) + swap_blocks(hz));

        vstd::seq_lib::lemma_multiset_commutative(swap_blocks(m) + swap_blocks(hz), swap_blocks(v1));
        vstd::seq_lib::lemma_multiset_commutative(swap_blocks(m), swap_blocks(hz));
        vstd::seq_lib::lemma_multiset_commutative(swap_blocks(m) + swap_blocks(v1), swap_blocks(hz));
        vstd::seq_lib::lemma_multiset_commutative(swap_blocks(m), swap_blocks(v1));
        assert(left.to_multiset() =~= right.to_multiset());
    }
}

/// During the matrix build, cells before `(y, x)` in row-major order hold
/// the match of their lines and the rest are still clear.
pub open spec fn build_state(
    bits: Seq<bool>,
    h1: Seq<u32>,
    h2: Seq<u32>,
    y: int,
    x: int,
) -> bool {
    forall|r: int, c: int|
        0 <= r < h1.len() && 0 <= c < h2.len() ==> #[trigger] grid_cell(bits, h2.len() as int, r, c)
            == if r < y || (r == y && c < x) {
            h1[r] == h2[c]
        } else {
            false
        }
}

/// Compare two files and report every maximal diagonal run of matching
/// lines that reaches the effective minimum block size.
pub fn process_file_pair(
    source1: &SourceFile,
    source2: &SourceFile,
    source1_idx: usize,
    source2_idx: usize,
    config: &Config,
    context: &mut ThreadContext,
) -> (blocks: Vec<Block>)
    requires
        source1.source_lines@.len() * source2.source_lines@.len() <= old(context).matrix_len(),
    ensures
        blocks@ == pair_blocks_spec(
            source1.hashes(),
            source2.hashes(),
            source1_idx as int,
            source2_idx as int,
            calc_min_block_size_spec(
                config.min_block_size as int,
                config.block_percent_threshold as int,
                source1.source_lines@.len() as int,
                source2.source_lines@.len() as int,
            ),
            source1_idx == source2_idx,
        ),
        final(context).matrix_len() == old(context).matrix_len(),
{
    let ghost h1 = source1.hashes();
    let ghost h2 = source2.hashes();
    let ghost i1 = source1_idx as int;
    let ghost i2 = source2_idx as int;
    let m = source1.num_lines();
    let n = source2.num_lines();
    proof {
        assert(h1.len() == m && h2.len() == n);
    }
    if m == 0 || n == 0 {
        let blocks: Vec<Block> = Vec::new();
        return blocks;
    }
    // Reading the length binds the matrix size to a machine word.
    let total_bits = bitvec_len(&context.matrix);
    context.reset_matrix(m, n);

    // Build the match matrix: bit (x + n * y) says whether line y of file 1
    // and line x of file 2 hash alike.
    let mut y: usize = 0;
    proof {
        assert forall|r: int, c: int| 0 <= r < h1.len() && 0 <= c < h2.len() implies #[trigger] grid_cell(
            bits_of(context.matrix),
            h2.len() as int,
            r,
            c,
        ) == false by {
            lemma_cell_index_bound(r, c, m as int, n as int);
        }
    }
    while y < m
        invariant
            0 <= y <= m,
            m == h1.len(),
            n == h2.len(),
            m * n <= context.matrix_len() <= usize::MAX,
                context.matrix_len() == old(context).matrix_len(),
            h1 == source1.hashes(),
            h2 == source2.hashes(),
            build_state(bits_of(context.matrix), h1, h2, y as int, 0),
        decreases m - y,
    {
        let mut x: usize = 0;
        while x < n
            invariant
                0 <= y < m,
                0 <= x <= n,
                m == h1.len(),
                n == h2.len(),
                m * n <= context.matrix_len() <= usize::MAX,
                context.matrix_len() == old(context).matrix_len(),
                h1 == source1.hashes(),
                h2 == source2.hashes(),
                build_state(bits_of(context.matrix), h1, h2, y as int, x as int),
            decreases n - x,
        {
            proof {
                lemma_cell_index_bound(y as int, x as int, m as int, n as int);
            }
            if source1.get_line(y).hash == source2.get_line(x).hash {
                let ghost before = bits_of(context.matrix);
                bitvec_set(&mut context.matrix, x + n * y, true);
                proof {
                    let nn = n as int;
                    assert forall|r: int, c: int|
                        0 <= r < h1.len() && 0 <= c < h2.len() implies #[trigger] grid_cell(
                        bits_of(context.matrix),
                        nn,
                        r,
                        c,
                    ) == if r < y as int || (r == y as int && c < x as int + 1) {
                        h1[r] == h2[c]
                    } else {
                        false
                    } by {
                        lemma_cell_index_bound(r, c, m as int, nn);
                        if c + nn * r == x as int + nn * (y as int) {
                            lemma_cell_index_inj(r, c, y as int, x as int, nn);
                        } else {
                            assert(grid_cell(bits_of(context.matrix), nn, r, c) == grid_cell(
                                before,
                                nn,
                                r,
                                c,
                            ));
                        }
                    }
                }
            } else {
                proof {
                    let nn = n as int;
                    assert forall|r: int, c: int|
                        0 <= r < h1.len() && 0 <= c < h2.len() implies #[trigger] grid_cell(
                        bits_of(context.matrix),
                        nn,
                        r,
                        c,
                    ) == if r < y as int || (r == y as int && c < x as int + 1) {
                        h1[r] == h2[c]
                    } else {
                        false
                    } by {
                        assert(source1.hashes()[y as int] == source1.source_lines@[y as int].hash);
                        assert(source2.hashes()[x as int] == source2.source_lines@[x as int].hash);
                    }
                }
            }
            x = x + 1;
        }
        y = y + 1;
    }
    proof {
        assert(grid_models(bits_of(context.matrix), h1, h2)) by {
            assert forall|r: int, c: int|
                0 <= r < h1.len() && 0 <= c < h2.len() implies #[trigger] grid_cell(
                bits_of(context.matrix),
                h2.len() as int,
                r,
                c,
            ) == (h1[r] == h2[c]) by {
                assert(grid_cell(bits_of(context.matrix), h2.len() as int, r, c) == if r < m as int
                    || (r == m as int && c < 0) {
                    h1[r] == h2[c]
                } else {
                    false
                });
            }
        }
    }

    let min_block_size = calc_min_block_size(config, m, n);
    let ghost minb = min_block_size as int;
    let mut blocks: Vec<Block> = Vec::new();
    let is_same_file = source1_idx == source2_idx;
    let ghost same = source1_idx == source2_idx;

    // Vertical pass: diagonals starting at (y, 0).
    let mut y: usize = 0;
    while y < m
        invariant
            0 <= y <= m,
            m == h1.len(),
            n == h2.len(),
            m * n <= context.matrix_len() <= usize::MAX,
                context.matrix_len() == old(context).matrix_len(),
            grid_models(bits_of(context.matrix), h1, h2),
            minb == min_block_size as int,
            same == is_same_file,
            same == (source1_idx == source2_idx),
            i1 == source1_idx as int,
            i2 == source2_idx as int,
            vert_blocks_from(h1, h2, i1, i2, 0, minb, same) =~= blocks@ + vert_blocks_from(
                h1,
                h2,
                i1,
                i2,
                y as int,
                minb,
                same,
            ),
        decreases m - y,
    {
        let max_x = if n <= m - y {
            n
        } else {
            m - y
        };
        proof {
            assert(max_x as int == diag_limit(h1, h2, y as int, 0));
        }
        let mut seq_len: usize = 0;
        let mut x: usize = 0;
        while x < max_x
            invariant
                0 <= y < m,
                0 <= x <= max_x,
                max_x as int == diag_limit(h1, h2, y as int, 0),
                max_x <= n,
                max_x <= m - y,
                seq_len <= x,
                m == h1.len(),
                n == h2.len(),
                m * n <= context.matrix_len() <= usize::MAX,
                context.matrix_len() == old(context).matrix_len(),
                grid_models(bits_of(context.matrix), h1, h2),
                minb == min_block_size as int,
                same == is_same_file,
                same == (source1_idx == source2_idx),
                i1 == source1_idx as int,
                i2 == source2_idx as int,
                vert_blocks_from(h1, h2, i1, i2, 0, minb, same) =~= blocks@ + scan_diag(
                    h1,
                    h2,
                    i1,
                    i2,
                    y as int,
                    0,
                    x as int,
                    seq_len as int,
                    minb,
                    same,
                ) + vert_blocks_from(h1, h2, i1, i2, y as int + 1, minb, same),
            decreases max_x - x,
        {
            proof {
                lemma_cell_index_bound(y as int + x as int, x as int, m as int, n as int);
            }
            let bit = bitvec_get(&context.matrix, x + n * (y + x));
            proof {
                assert(grid_cell(bits_of(context.matrix), n as int, y as int + x as int, x as int)
                    == bits_of(context.matrix)[x as int + n as int * (y as int + x as int)]);
            }
            if bit {
                seq_len = seq_len + 1;
            } else {
                if seq_len >= min_block_size {
                    let line1 = y + x - seq_len;
                    let line2 = x - seq_len;
                    if !is_same_file || line1 != line2 {
                        let ghost prev = blocks@;
                        blocks.push(Block::new(source1_idx, source2_idx, line1, line2, seq_len));
                        proof {
                            assert(blocks@.last() == run_block(
                                i1,
                                i2,
                                y as int,
                                0,
                                x as int,
                                seq_len as int,
                            ));
                            assert(prev + (seq![blocks@.last()] + scan_diag(
                                h1,
                                h2,
                                i1,
                                i2,
                                y as int,
                                0,
                                x as int + 1,
                                0,
                                minb,
                                same,
                            )) =~= blocks@ + scan_diag(
                                h1,
                                h2,
                                i1,
                                i2,
                                y as int,
                                0,
                                x as int + 1,
                                0,
                                minb,
                                same,
                            ));
                        }
                    }
                }
                seq_len = 0;
            }
            x = x + 1;
        }
        // End of the diagonal: report a final qualifying run.
        if seq_len >= min_block_size {
            let line1 = y + max_x - seq_len;
            let line2 = max_x - seq_len;
            if !is_same_file || line1 != line2 {
                let ghost prev = blocks@;
                blocks.push(Block::new(source1_idx, source2_idx, line1, line2, seq_len));
                proof {
                    assert(blocks@.last() == run_block(
                        i1,
                        i2,
                        y as int,
                        0,
                        max_x as int,
                        seq_len as int,
                    ));
                    assert(prev + seq![blocks@.last()] =~= blocks@);
                }
            }
        }
        proof {
            assert(blocks@ + vert_blocks_from(h1, h2, i1, i2, y as int + 1, minb, same)
                =~= vert_blocks_from(h1, h2, i1, i2, 0, minb, same));
        }
        y = y + 1;
    }

    // Horizontal pass, for distinct files only: diagonals starting at (0, x).
    if !is_same_file {
        let mut x: usize = 1;
        while x < n
            invariant
                1 <= x <= n,
                m == h1.len(),
                n == h2.len(),
                m >= 1,
                m * n <= context.matrix_len() <= usize::MAX,
                context.matrix_len() == old(context).matrix_len(),
                grid_models(bits_of(context.matrix), h1, h2),
                minb == min_block_size as int,
                !is_same_file,
                !same,
                same == (source1_idx == source2_idx),
                i1 == source1_idx as int,
                i2 == source2_idx as int,
                vert_blocks_from(h1, h2, i1, i2, 0, minb, same) + horiz_blocks_from(
                    h1,
                    h2,
                    i1,
                    i2,
                    1,
                    minb,
                ) =~= blocks@ + horiz_blocks_from(h1, h2, i1, i2, x as int, minb),
            decreases n - x,
        {
            let max_y = if m <= n - x {
                m
            } else {
                n - x
            };
            proof {
                assert(max_y as int == diag_limit(h1, h2, 0, x as int));
            }
            let mut seq_len: usize = 0;
            let mut yy: usize = 0;
            while yy < max_y
                invariant
                    1 <= x < n,
                    0 <= yy <= max_y,
                    max_y as int == diag_limit(h1, h2, 0, x as int),
                    max_y <= m,
                    max_y <= n - x,
                    seq_len <= yy,
                    m == h1.len(),
                    n == h2.len(),
                    m * n <= context.matrix_len() <= usize::MAX,
                context.matrix_len() == old(context).matrix_len(),
                    grid_models(bits_of(context.matrix), h1, h2),
                    minb == min_block_size as int,
                    !same,
                    i1 == source1_idx as int,
                    i2 == source2_idx as int,
                    vert_blocks_from(h1, h2, i1, i2, 0, minb, same) + horiz_blocks_from(
                        h1,
                        h2,
                        i1,
                        i2,
                        1,
                        minb,
                    ) =~= blocks@ + scan_diag(
                        h1,
                        h2,
                        i1,
                        i2,
                        0,
                        x as int,
                        yy as int,
                        seq_len as int,
                        minb,
                        false,
                    ) + horiz_blocks_from(h1, h2, i1, i2, x as int + 1, minb),
                decreases max_y - yy,
            {
                proof {
                    lemma_cell_index_bound(yy as int, x as int + yy as int, m as int, n as int);
                }
                let bit = bitvec_get(&context.matrix, x + yy + n * yy);
                proof {
                    assert(grid_cell(bits_of(context.matrix), n as int, yy as int, x as int
                        + yy as int) == bits_of(context.matrix)[x as int + yy as int + n as int
                        * yy as int]);
                }
                if bit {
                    seq_len = seq_len + 1;
                } else {
                    if seq_len >= min_block_size {
                        let ghost prev = blocks@;
                        blocks.push(
                            Block::new(
                                source1_idx,
                                source2_idx,
                                yy - seq_len,
                                x + yy - seq_len,
                                seq_len,
                            ),
                        );
                        proof {
                            assert(blocks@.last() == run_block(
                                i1,
                                i2,
                                0,
                                x as int,
                                yy as int,
                                seq_len as int,
                            ));
                            assert(prev + (seq![blocks@.last()] + scan_diag(
                                h1,
                                h2,
                                i1,
                                i2,
                                0,
                                x as int,
                                yy as int + 1,
                                0,
                                minb,
                                false,
                            )) =~= blocks@ + scan_diag(
                                h1,
                                h2,
                                i1,
                                i2,
                                0,
                                x as int,
                                yy as int + 1,
                                0,
                                minb,
                                false,
                            ));
                        }
                    }
                    seq_len = 0;
                }
                yy = yy + 1;
            }
            if seq_len >= min_block_size {
                let ghost prev = blocks@;
                blocks.push(
                    Block::new(
                        source1_idx,
                        source2_idx,
                        max_y - seq_len,
                        x + max_y - seq_len,
                        seq_len,
                    ),
                );
                proof {
                    assert(blocks@.last() == run_block(
                        i1,
                        i2,
                        0,
                        x as int,
                        max_y as int,
                        seq_len as int,
                    ));
                    assert(prev + seq![blocks@.last()] =~= blocks@);
                }
            }
            proof {
                assert(blocks@ + horiz_blocks_from(h1, h2, i1, i2, x as int + 1, minb)
                    =~= vert_blocks_from(h1, h2, i1, i2, 0, minb, same) + horiz_blocks_from(
                    h1,
                    h2,
                    i1,
                    i2,
                    1,
                    minb,
                ));
            }
            x = x + 1;
        }
    }
    blocks
}

} // verus!
