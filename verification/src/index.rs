//! The inverted index over line hashes.
//!
//! Maps each 32-bit line hash to the list of file indices whose cleaned
//! lines contain it, so that the scheduler can prune file pairs that cannot
//! share any line.

use vstd::prelude::*;

verus! {

use std::collections::HashMap;
use crate::source_file::SourceFile;

broadcast use vstd::std_specs::hash::group_hash_axioms;

/// Some cleaned line of `f` carries the hash `h`.
pub open spec fn file_has_hash(f: SourceFile, h: u32) -> bool {
    exists|k: int| 0 <= k < f.source_lines@.len() && f.source_lines@[k].hash == h
}

/// Some cleaned line of `f` before position `upto` carries the hash `h`.
pub open spec fn file_has_hash_upto(f: SourceFile, upto: int, h: u32) -> bool {
    exists|k: int| 0 <= k < upto && k < f.source_lines@.len() && f.source_lines@[k].hash == h
}

/// Files `i` and `j` share at least one line hash.
pub open spec fn shares_hash(files: Seq<SourceFile>, i: int, j: int) -> bool {
    exists|h: u32|
        #![trigger file_has_hash(files[i], h), file_has_hash(files[j], h)]
        file_has_hash(files[i], h) && file_has_hash(files[j], h)
}

/// The hash `h` occurs among the lines already entered into the index:
/// every line of the files before `fi`, and the lines of `fi` before `li`.
pub open spec fn hash_seen(files: Seq<SourceFile>, fi: int, li: int, h: u32) -> bool {
    (exists|j: int| 0 <= j < fi && j < files.len() && file_has_hash(files[j], h)) || (0 <= fi
        < files.len() && file_has_hash_upto(files[fi], li, h))
}

/// Partial correctness of the index after entering all lines before file
/// `fi`, line `li`.
pub open spec fn index_state(
    m: Map<u32, Vec<usize>>,
    files: Seq<SourceFile>,
    fi: int,
    li: int,
) -> bool {
    &&& forall|h: u32| #[trigger] m.contains_key(h) <==> hash_seen(files, fi, li, h)
    &&& forall|h: u32, j: usize|
        m.contains_key(h) && #[trigger] m[h]@.contains(j) ==> ((j < fi && j < files.len()
            && file_has_hash(files[j as int], h)) || (j == fi && file_has_hash_upto(
            files[fi],
            li,
            h,
        )))
    &&& forall|h: u32, j: int|
        0 <= j < fi && j < files.len() && #[trigger] file_has_hash(files[j], h) ==> m.contains_key(
            h,
        ) && m[h]@.contains(j as usize)
    &&& forall|h: u32|
        0 <= fi < files.len() && #[trigger] file_has_hash_upto(files[fi], li, h)
            ==> m.contains_key(h) && m[h]@.contains(fi as usize)
}

/// Full correctness of the built index: a hash maps to exactly the files
/// that contain it.
pub open spec fn index_ok(m: Map<u32, Vec<usize>>, files: Seq<SourceFile>) -> bool {
    &&& forall|h: u32| #[trigger] m.contains_key(h) <==> exists|j: int|
        0 <= j < files.len() && file_has_hash(files[j], h)
    &&& forall|h: u32, j: usize|
        m.contains_key(h) && #[trigger] m[h]@.contains(j) ==> (j < files.len() && file_has_hash(
            files[j as int],
            h,
        ))
    &&& forall|h: u32, j: int|
        0 <= j < files.len() && #[trigger] file_has_hash(files[j], h) ==> m.contains_key(h)
            && m[h]@.contains(j as usize)
}

/// Build the inverted index in one pass over all source files.
pub fn build_hash_index(source_files: &Vec<SourceFile>) -> (m: HashMap<u32, Vec<usize>>)
    ensures
        index_ok(m@, source_files@),
{
    let ghost files = source_files@;
    let mut m: HashMap<u32, Vec<usize>> = HashMap::new();
    let mut fi: usize = 0;
    while fi < source_files.len()
        invariant
            0 <= fi <= files.len(),
            files == source_files@,
            index_state(m@, files, fi as int, 0),
        decreases files.len() - fi,
    {
        let nlines = source_files[fi].num_lines();
        let mut li: usize = 0;
        while li < nlines
            invariant
                0 <= fi < files.len(),
                0 <= li <= nlines == files[fi as int].source_lines@.len(),
                files == source_files@,
                index_state(m@, files, fi as int, li as int),
            decreases nlines - li,
        {
            let h = source_files[fi].get_line(li).hash;
            let ghost m0 = m@;
            let entry = m.remove(&h);
            match entry {
                Some(mut v) => {
                    let ghost v0 = v@;
                    v.push(fi);
                    m.insert(h, v);
                    proof {
                        assert(m@[h]@ =~= v0.push(fi));
                        lemma_index_step(m0, m@, files, fi as int, li as int, h, v0, true);
                    }
                },
                None => {
                    let mut v: Vec<usize> = Vec::new();
                    v.push(fi);
                    m.insert(h, v);
                    proof {
                        assert(m@[h]@ =~= Seq::<usize>::empty().push(fi));
                        lemma_index_step(
                            m0,
                            m@,
                            files,
                            fi as int,
                            li as int,
                            h,
                            Seq::empty(),
                            false,
                        );
                    }
                },
            }
            li = li + 1;
        }
        proof {
            lemma_index_file_done(m@, files, fi as int);
        }
        fi = fi + 1;
    }
    proof {
        lemma_index_complete(m@, files);
    }
    m
}

/// Entering the hash of line `li` of file `fi` preserves the index
/// invariant, advancing it by one line.
proof fn lemma_index_step(
    m0: Map<u32, Vec<usize>>,
    m1: Map<u32, Vec<usize>>,
    files: Seq<SourceFile>,
    fi: int,
    li: int,
    h: u32,
    v0: Seq<usize>,
    present: bool,
)
    requires
        index_state(m0, files, fi, li),
        0 <= fi < files.len(),
        fi <= usize::MAX,
        0 <= li < files[fi].source_lines@.len(),
        files[fi].source_lines@[li].hash == h,
        present ==> m0.contains_key(h) && m0[h]@ == v0,
        !present ==> !m0.contains_key(h) && v0 =~= Seq::<usize>::empty(),
        m1.contains_key(h),
        m1[h]@ =~= v0.push(fi as usize),
        forall|g: u32| g != h ==> (#[trigger] m1.contains_key(g) <==> m0.contains_key(g)),
        forall|g: u32| g != h && m0.contains_key(g) ==> #[trigger] m1[g] == m0[g],
    ensures
        index_state(m1, files, fi, li + 1),
{
    assert(file_has_hash_upto(files[fi], li + 1, h));
    // Keys.
    assert forall|g: u32| #[trigger] m1.contains_key(g) implies hash_seen(files, fi, li + 1, g) by {
        if g == h {
        } else {
            assert(hash_seen(files, fi, li, g));
            lemma_hash_seen_mono(files, fi, li, g);
        }
    }
    assert forall|g: u32| hash_seen(files, fi, li + 1, g) implies #[trigger] m1.contains_key(
        g,
    ) by {
        if g != h {
            if file_has_hash_upto(files[fi], li + 1, g) {
                let k = choose|k: int|
                    0 <= k < li + 1 && k < files[fi].source_lines@.len()
                        && files[fi].source_lines@[k].hash == g;
                assert(k != li);
                assert(file_has_hash_upto(files[fi], li, g));
            }
            assert(hash_seen(files, fi, li, g));
        }
    }
    // Soundness of list membership.
    assert forall|g: u32, j: usize|
        m1.contains_key(g) && #[trigger] m1[g]@.contains(j) implies ((j < fi && j < files.len()
        && file_has_hash(files[j as int], g)) || (j == fi && file_has_hash_upto(
        files[fi],
        li + 1,
        g,
    ))) by {
        if g == h {
            let idx = choose|idx: int| 0 <= idx < m1[g]@.len() && m1[g]@[idx] == j;
            if idx < v0.len() {
                assert(v0[idx] == j);
                assert(v0.contains(j));
                assert(m0.contains_key(h) && m0[h]@.contains(j));
                assert((j < fi && j < files.len() && file_has_hash(files[j as int], h)) || (j == fi
                    && file_has_hash_upto(files[fi], li, h)));
                if j == fi {
                    let kk = choose|kk: int|
                        0 <= kk < li && kk < files[fi].source_lines@.len()
                            && files[fi].source_lines@[kk].hash == h;
                    assert(0 <= kk < li + 1 && kk < files[fi].source_lines@.len()
                        && files[fi].source_lines@[kk].hash == h);
                    assert(file_has_hash_upto(files[fi], li + 1, h));
                }
            } else {
                assert(m1[g]@[idx] == fi as usize);
                assert(j == fi);
                assert(file_has_hash_upto(files[fi], li + 1, h));
            }
        } else {
            assert(m0.contains_key(g) && m0[g]@.contains(j));
            if j == fi && file_has_hash_upto(files[fi], li, g) {
                let kk = choose|kk: int|
                    0 <= kk < li && kk < files[fi].source_lines@.len()
                        && files[fi].source_lines@[kk].hash == g;
                assert(file_has_hash_upto(files[fi], li + 1, g));
            }
        }
    }
    // Completeness for earlier files.
    assert forall|g: u32, j: int|
        0 <= j < fi && j < files.len() && #[trigger] file_has_hash(files[j], g) implies
        m1.contains_key(g) && m1[g]@.contains(j as usize) by {
        assert(m0.contains_key(g) && m0[g]@.contains(j as usize));
        if g == h {
            assert(v0.contains(j as usize));
            let idx = choose|idx: int| 0 <= idx < v0.len() && v0[idx] == j as usize;
            assert(m1[g]@[idx] == j as usize);
            assert(m1[g]@.contains(j as usize));
        }
    }
    // Completeness for the current file.
    assert forall|g: u32|
        0 <= fi < files.len() && #[trigger] file_has_hash_upto(files[fi], li + 1, g) implies
        m1.contains_key(g) && m1[g]@.contains(fi as usize) by {
        if g == h {
            assert(m1[h]@[m1[h]@.len() - 1] == fi as usize);
            assert(m1[h]@.contains(fi as usize));
        } else {
            let k = choose|k: int|
                0 <= k < li + 1 && k < files[fi].source_lines@.len()
                    && files[fi].source_lines@[k].hash == g;
            assert(k != li);
            assert(file_has_hash_upto(files[fi], li, g));
            assert(m0.contains_key(g) && m0[g]@.contains(fi as usize));
        }
    }
}

/// A hash seen up to line `li` is still seen up to `li + 1`.
proof fn lemma_hash_seen_mono(files: Seq<SourceFile>, fi: int, li: int, h: u32)
    requires
        hash_seen(files, fi, li, h),
    ensures
        hash_seen(files, fi, li + 1, h),
{
    if 0 <= fi < files.len() && file_has_hash_upto(files[fi], li, h) {
        let k = choose|k: int|
            0 <= k < li && k < files[fi].source_lines@.len() && files[fi].source_lines@[k].hash
                == h;
        assert(file_has_hash_upto(files[fi], li + 1, h));
    }
}

/// Finishing a file advances the invariant to the next file.
proof fn lemma_index_file_done(m: Map<u32, Vec<usize>>, files: Seq<SourceFile>, fi: int)
    requires
        0 <= fi < files.len(),
        index_state(m, files, fi, files[fi].source_lines@.len() as int),
    ensures
        index_state(m, files, fi + 1, 0),
{
    let full = files[fi].source_lines@.len() as int;
    assert forall|h: u32| #[trigger] m.contains_key(h) implies hash_seen(files, fi + 1, 0, h) by {
        if file_has_hash_upto(files[fi], full, h) {
            assert(file_has_hash(files[fi], h));
        }
    }
    assert forall|h: u32| hash_seen(files, fi + 1, 0, h) implies #[trigger] m.contains_key(h) by {
        let j = choose|j: int| 0 <= j < fi + 1 && j < files.len() && file_has_hash(files[j], h);
        if j == fi {
            assert(file_has_hash_upto(files[fi], full, h));
        } else {
            assert(hash_seen(files, fi, full, h));
        }
    }
    assert forall|h: u32, j: usize|
        m.contains_key(h) && #[trigger] m[h]@.contains(j) implies ((j < fi + 1 && j < files.len()
        && file_has_hash(files[j as int], h)) || (j == fi + 1 && file_has_hash_upto(
        files[fi + 1],
        0,
        h,
    ))) by {
        if j == fi && file_has_hash_upto(files[fi], full, h) {
            assert(file_has_hash(files[fi], h));
        }
    }
    assert forall|h: u32, j: int|
        0 <= j < fi + 1 && j < files.len() && #[trigger] file_has_hash(files[j], h) implies
        m.contains_key(h) && m[h]@.contains(j as usize) by {
        if j == fi {
            assert(file_has_hash_upto(files[fi], full, h));
        }
    }
}

/// After the last file, the invariant is exactly full correctness.
proof fn lemma_index_complete(m: Map<u32, Vec<usize>>, files: Seq<SourceFile>)
    requires
        index_state(m, files, files.len() as int, 0),
    ensures
        index_ok(m, files),
{
}

/// Hash sharing with file `i`, witnessed among the lines of `i` before
/// `upto`.
pub open spec fn shares_hash_upto(files: Seq<SourceFile>, i: int, upto: int, j: int) -> bool {
    exists|l: int|
        0 <= l < upto && l < files[i].source_lines@.len() && file_has_hash(
            files[j],
            files[i].source_lines@[l].hash,
        )
}

/// Scanning all lines of file `i` decides hash sharing.
proof fn lemma_shares_hash_full(files: Seq<SourceFile>, i: int, j: int)
    requires
        0 <= i < files.len(),
        0 <= j < files.len(),
    ensures
        shares_hash_upto(files, i, files[i].source_lines@.len() as int, j) == shares_hash(
            files,
            i,
            j,
        ),
{
    let full = files[i].source_lines@.len() as int;
    if shares_hash_upto(files, i, full, j) {
        let l = choose|l: int|
            0 <= l < full && l < files[i].source_lines@.len() && file_has_hash(
                files[j],
                files[i].source_lines@[l].hash,
            );
        let h = files[i].source_lines@[l].hash;
        assert(file_has_hash(files[i], h));
        assert(shares_hash(files, i, j));
    }
    if shares_hash(files, i, j) {
        let h = choose|h: u32|
            #![trigger file_has_hash(files[i], h), file_has_hash(files[j], h)]
            file_has_hash(files[i], h) && file_has_hash(files[j], h);
        let k = choose|k: int|
            0 <= k < files[i].source_lines@.len() && files[i].source_lines@[k].hash == h;
        assert(file_has_hash(files[j], files[i].source_lines@[k].hash));
        assert(shares_hash_upto(files, i, full, j));
    }
}

/// Mark the files that share at least one line hash with file `i`.
pub fn get_matching_files(
    i: usize,
    source_files: &Vec<SourceFile>,
    index: &HashMap<u32, Vec<usize>>,
) -> (marks: Vec<bool>)
    requires
        index_ok(index@, source_files@),
        i < source_files@.len(),
    ensures
        marks@.len() == source_files@.len(),
        forall|j: int|
            0 <= j < marks@.len() ==> (marks@[j] <==> shares_hash(source_files@, i as int, j)),
{
    let ghost files = source_files@;
    let nfiles = source_files.len();
    let mut marks: Vec<bool> = Vec::new();
    let mut z: usize = 0;
    while z < nfiles
        invariant
            marks@.len() == z <= nfiles,
            forall|j: int| 0 <= j < z ==> !marks@[j],
        decreases nfiles - z,
    {
        marks.push(false);
        z = z + 1;
    }
    let nlines = source_files[i].num_lines();
    let mut li: usize = 0;
    while li < nlines
        invariant
            i < files.len(),
            files == source_files@,
            index_ok(index@, files),
            0 <= li <= nlines == files[i as int].source_lines@.len(),
            marks@.len() == nfiles,
            nfiles == files.len(),
            forall|j: int|
                0 <= j < marks@.len() ==> (marks@[j] <==> shares_hash_upto(
                    files,
                    i as int,
                    li as int,
                    j,
                )),
        decreases nlines - li,
    {
        let h = source_files[i].get_line(li).hash;
        match index.get(&h) {
            Some(list) => {
                let ghost l0 = list@;
                let mut p: usize = 0;
                while p < list.len()
                    invariant
                        i < files.len(),
                        files == source_files@,
                        index_ok(index@, files),
                        0 <= li < nlines == files[i as int].source_lines@.len(),
                        files[i as int].source_lines@[li as int].hash == h,
                        index@.contains_key(h),
                        index@[h]@ == l0,
                        l0 == list@,
                        0 <= p <= l0.len(),
                        marks@.len() == nfiles,
                        nfiles == files.len(),
                        forall|j: int|
                            0 <= j < marks@.len() ==> (marks@[j] <==> (shares_hash_upto(
                                files,
                                i as int,
                                li as int,
                                j,
                            ) || exists|q: int| 0 <= q < p && l0[q] == j)),
                    decreases l0.len() - p,
                {
                    let j = list[p];
                    proof {
                        assert(l0.contains(l0[p as int]));
                        assert(j < files.len() && file_has_hash(files[j as int], h));
                    }
                    marks.set(j, true);
                    p = p + 1;
                }
                proof {
                    assert forall|j: int| 0 <= j < marks@.len() implies (marks@[j]
                        <==> shares_hash_upto(files, i as int, li as int + 1, j)) by {
                        if marks@[j] {
                            if shares_hash_upto(files, i as int, li as int, j) {
                                let l = choose|l: int|
                                    0 <= l < li as int && l
                                        < files[i as int].source_lines@.len() && file_has_hash(
                                        files[j],
                                        files[i as int].source_lines@[l].hash,
                                    );
                                assert(shares_hash_upto(files, i as int, li as int + 1, j));
                            } else {
                                let q = choose|q: int| 0 <= q < l0.len() && l0[q] == j;
                                assert(l0.contains(l0[q]));
                                assert(file_has_hash(files[j], h));
                                assert(shares_hash_upto(files, i as int, li as int + 1, j));
                            }
                        } else {
                            if shares_hash_upto(files, i as int, li as int + 1, j) {
                                let l = choose|l: int|
                                    0 <= l < li as int + 1 && l
                                        < files[i as int].source_lines@.len() && file_has_hash(
                                        files[j],
                                        files[i as int].source_lines@[l].hash,
                                    );
                                if l == li as int {
                                    assert(file_has_hash(files[j], h));
                                    assert(index@[h]@.contains(j as usize));
                                    let q = choose|q: int|
                                        0 <= q < l0.len() && l0[q] == j as usize;
                                    assert(l0[q] == j);
                                    assert(exists|qq: int| 0 <= qq < l0.len() && l0[qq] == j);
                                    assert(false);
                                } else {
                                    assert(shares_hash_upto(files, i as int, li as int, j));
                                    assert(false);
                                }
                            }
                        }
                    }
                }
            },
            None => {
                proof {
                    assert forall|j: int| 0 <= j < marks@.len() implies (marks@[j]
                        <==> shares_hash_upto(files, i as int, li as int + 1, j)) by {
                        if marks@[j] {
                            let l = choose|l: int|
                                0 <= l < li as int && l < files[i as int].source_lines@.len()
                                    && file_has_hash(files[j], files[i as int].source_lines@[l].hash);
                            assert(shares_hash_upto(files, i as int, li as int + 1, j));
                        } else {
                            if shares_hash_upto(files, i as int, li as int + 1, j) {
                                let l = choose|l: int|
                                    0 <= l < li as int + 1 && l
                                        < files[i as int].source_lines@.len() && file_has_hash(
                                        files[j],
                                        files[i as int].source_lines@[l].hash,
                                    );
                                if l == li as int {
                                    assert(file_has_hash(files[j], h));
                                    assert(index@.contains_key(h));
                                    assert(false);
                                } else {
                                    assert(shares_hash_upto(files, i as int, li as int, j));
                                    assert(false);
                                }
                            }
                        }
                    }
                }
            },
        }
        li = li + 1;
    }
    proof {
        assert forall|j: int| 0 <= j < marks@.len() implies (marks@[j] <==> shares_hash(
            files,
            i as int,
            j,
        )) by {
            lemma_shares_hash_full(files, i as int, j);
        }
    }
    marks
}

} // verus!
