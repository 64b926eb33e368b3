//! FNV-1a hashing of source lines.
//!
//! Line equality throughout the crate is a 32-bit compare of FNV-1a hashes
//! taken over the line's bytes with every byte at or below ASCII space
//! removed, so that indentation and spacing cannot defeat matching.

use vstd::prelude::*;

verus! {

use vstd::string::StringSliceAdditionalSpecFns;

/// FNV-1a offset basis (32-bit).
pub const FNV_OFFSET_BASIS: u32 = 2166136261;

/// FNV-1a prime (32-bit).
pub const FNV_PRIME: u32 = 16777619;

/// FNV-1a offset basis (64-bit), for content and configuration digests.
pub const FNV64_OFFSET_BASIS: u64 = 14695981039346656037;

/// FNV-1a prime (64-bit).
pub const FNV64_PRIME: u64 = 1099511628211;

/// One step of 32-bit FNV-1a: fold a byte into the running hash.
pub open spec fn fnv1a_step(h: u32, b: u8) -> u32 {
    vstd::wrapping::u32_specs::wrapping_mul(h ^ (b as u32), FNV_PRIME)
}

/// 32-bit FNV-1a over a byte sequence.
pub open spec fn fnv1a_spec(data: Seq<u8>) -> u32
    decreases data.len(),
{
    if data.len() == 0 {
        FNV_OFFSET_BASIS
    } else {
        fnv1a_step(fnv1a_spec(data.drop_last()), data.last())
    }
}

/// One step of 64-bit FNV-1a.
pub open spec fn fnv1a64_step(h: u64, b: u8) -> u64 {
    vstd::wrapping::u64_specs::wrapping_mul(h ^ (b as u64), FNV64_PRIME)
}

/// 64-bit FNV-1a over a byte sequence.
pub open spec fn fnv1a64_spec(data: Seq<u8>) -> u64
    decreases data.len(),
{
    if data.len() == 0 {
        FNV64_OFFSET_BASIS
    } else {
        fnv1a64_step(fnv1a64_spec(data.drop_last()), data.last())
    }
}

/// The bytes of a line that take part in hashing: everything strictly above
/// ASCII space. Whitespace and control bytes are dropped.
pub open spec fn visible_bytes(data: Seq<u8>) -> Seq<u8>
    decreases data.len(),
{
    if data.len() == 0 {
        Seq::empty()
    } else if data.last() > 32 {
        visible_bytes(data.drop_last()).push(data.last())
    } else {
        visible_bytes(data.drop_last())
    }
}

/// The hash of a line, given its UTF-8 bytes: FNV-1a over the visible bytes.
pub open spec fn line_hash_spec(data: Seq<u8>) -> u32 {
    fnv1a_spec(visible_bytes(data))
}

/// Compute the 32-bit FNV-1a hash of a byte slice.
pub fn fnv1a_hash(data: &[u8]) -> (h: u32)
    ensures
        h == fnv1a_spec(data@),
{
    let mut hash: u32 = FNV_OFFSET_BASIS;
    let mut i: usize = 0;
    while i < data.len()
        invariant
            0 <= i <= data@.len(),
            hash == fnv1a_spec(data@.take(i as int)),
        decreases data@.len() - i,
    {
        proof {
            assert(data@.take(i + 1).drop_last() =~= data@.take(i as int));
        }
        hash = (hash ^ (data[i] as u32)).wrapping_mul(FNV_PRIME);
        i = i + 1;
    }
    proof {
        assert(data@.take(data@.len() as int) =~= data@);
    }
    hash
}

/// Compute the 64-bit FNV-1a hash of a byte slice.
pub fn fnv1a64_hash(data: &[u8]) -> (h: u64)
    ensures
        h == fnv1a64_spec(data@),
{
    let mut hash: u64 = FNV64_OFFSET_BASIS;
    let mut i: usize = 0;
    while i < data.len()
        invariant
            0 <= i <= data@.len(),
            hash == fnv1a64_spec(data@.take(i as int)),
        decreases data@.len() - i,
    {
        proof {
            assert(data@.take(i + 1).drop_last() =~= data@.take(i as int));
        }
        hash = (hash ^ (data[i] as u64)).wrapping_mul(FNV64_PRIME);
        i = i + 1;
    }
    proof {
        assert(data@.take(data@.len() as int) =~= data@);
    }
    hash
}

/// Hash a source line: drop every byte at or below ASCII space, then FNV-1a.
pub fn hash_line(line: &str) -> (h: u32)
    ensures
        h == line_hash_spec(line.spec_bytes()),
{
    let bytes = line.as_bytes();
    let mut clean: Vec<u8> = Vec::new();
    let mut i: usize = 0;
    while i < bytes.len()
        invariant
            0 <= i <= bytes@.len(),
            clean@ == visible_bytes(bytes@.take(i as int)),
        decreases bytes@.len() - i,
    {
        proof {
            assert(bytes@.take(i + 1).drop_last() =~= bytes@.take(i as int));
        }
        if bytes[i] > 32 {
            clean.push(bytes[i]);
        }
        i = i + 1;
    }
    proof {
        assert(bytes@.take(bytes@.len() as int) =~= bytes@);
    }
    fnv1a_hash(clean.as_slice())
}

/// Hash stability: two texts whose bytes at or below ASCII space are stripped
/// into the same byte sequence have identical line hashes.
pub proof fn lemma_hash_stability(a: Seq<u8>, b: Seq<u8>)
    requires
        visible_bytes(a) == visible_bytes(b),
    ensures
        line_hash_spec(a) == line_hash_spec(b),
{
}

} // verus!
