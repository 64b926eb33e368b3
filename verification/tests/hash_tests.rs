use duplo_core::hash::{fnv1a_hash, hash_line, FNV_OFFSET_BASIS};

#[test]
fn test_empty_hash() {
    // Empty input should return the offset basis
    assert_eq!(fnv1a_hash(&[]), FNV_OFFSET_BASIS);
}

#[test]
fn test_simple_hash() {
    // Test with a simple string
    let hash = fnv1a_hash(b"hello");
    assert_ne!(hash, FNV_OFFSET_BASIS);
    // Verify consistency
    assert_eq!(hash, fnv1a_hash(b"hello"));
}

#[test]
fn test_hash_line_strips_whitespace() {
    // Lines with different whitespace should hash the same
    let hash1 = hash_line("int x = 5;");
    let hash2 = hash_line("int  x  =  5;");
    let hash3 = hash_line("int\tx\t=\t5;");
    let hash4 = hash_line("  int x = 5;  ");

    assert_eq!(hash1, hash2);
    assert_eq!(hash2, hash3);
    assert_eq!(hash3, hash4);
}

#[test]
fn test_hash_line_different_content() {
    // Different content should hash differently
    let hash1 = hash_line("int x = 5;");
    let hash2 = hash_line("int y = 5;");

    assert_ne!(hash1, hash2);
}

#[test]
fn test_hash_line_empty() {
    // Empty line (all whitespace) should hash to offset basis
    assert_eq!(hash_line(""), FNV_OFFSET_BASIS);
    assert_eq!(hash_line("   "), FNV_OFFSET_BASIS);
    assert_eq!(hash_line("\t\t"), FNV_OFFSET_BASIS);
}

#[test]
fn hash_stability_across_spacing_styles() {
    // Texts whose bytes at or below ASCII space strip to the same sequence
    // hash alike, whatever the spacing style.
    assert_eq!(hash_line("return x;"), hash_line("\treturn\tx ;\r"));
    assert_eq!(hash_line("a+b"), hash_line(" a + b "));
}

#[test]
fn hash_matches_stripped_bytes() {
    // The line hash is the plain FNV-1a hash of the visible bytes.
    assert_eq!(hash_line("int x = 5;"), fnv1a_hash(b"intx=5;"));
}
