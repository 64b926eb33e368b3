use duplo_core::cache::{compute_content_hash, FileCache, CACHE_VERSION};
use duplo_core::config::Config;
use duplo_core::line::SourceLine;

fn cache_with_min_chars(min_chars: u32) -> FileCache {
    let mut config = Config::default();
    config.min_chars = min_chars;
    FileCache::new("cache".to_string(), &config)
}

fn sample_lines() -> Vec<SourceLine> {
    vec![
        SourceLine::new("int x = 5;".to_string(), 1),
        SourceLine::new("int y = 10;".to_string(), 2),
    ]
}

#[test]
fn entry_round_trip_returns_the_same_lines() {
    let cache = cache_with_min_chars(3);
    let lines = sample_lines();
    let content_hash = compute_content_hash(&b"int x = 5;\nint y = 10;\n".to_vec());
    let entry = cache.make_entry(&lines, content_hash);
    assert_eq!(entry.version, CACHE_VERSION);

    let loaded = cache.validate_entry(&entry, content_hash).expect("the entry must validate");
    assert_eq!(loaded.len(), 2);
    assert_eq!(loaded[0].line(), "int x = 5;");
    assert_eq!(loaded[0].line_number(), 1);
    assert_eq!(loaded[1].line(), "int y = 10;");
}

#[test]
fn content_change_invalidates_the_entry() {
    let cache = cache_with_min_chars(3);
    let lines = sample_lines();
    let old_hash = compute_content_hash(&b"original content\n".to_vec());
    let entry = cache.make_entry(&lines, old_hash);

    let new_hash = compute_content_hash(&b"modified content\n".to_vec());
    assert_ne!(old_hash, new_hash);
    assert!(cache.validate_entry(&entry, new_hash).is_none());
}

#[test]
fn cleaning_config_change_invalidates_the_entry() {
    let lines = sample_lines();
    let content_hash = compute_content_hash(&b"test content\n".to_vec());
    let entry = cache_with_min_chars(3).make_entry(&lines, content_hash);

    // A different min-chars setting refuses the entry.
    assert!(cache_with_min_chars(5).validate_entry(&entry, content_hash).is_none());
    // The same setting accepts it.
    assert!(cache_with_min_chars(3).validate_entry(&entry, content_hash).is_some());
}

#[test]
fn detection_options_do_not_invalidate_the_entry() {
    let mut config1 = Config::default();
    config1.min_block_size = 4;
    let mut config2 = Config::default();
    config2.min_block_size = 10;
    // Only min-chars enters the cleaning digest.
    assert_eq!(config1.cleaning_config_hash(), config2.cleaning_config_hash());

    let lines = sample_lines();
    let content_hash = compute_content_hash(&b"test content\n".to_vec());
    let entry = FileCache::new("cache".to_string(), &config1).make_entry(&lines, content_hash);
    assert!(FileCache::new("cache".to_string(), &config2)
        .validate_entry(&entry, content_hash)
        .is_some());
}

#[test]
fn version_mismatch_invalidates_the_entry() {
    let cache = cache_with_min_chars(3);
    let lines = sample_lines();
    let content_hash = compute_content_hash(&b"abc\n".to_vec());
    let mut entry = cache.make_entry(&lines, content_hash);
    entry.version = CACHE_VERSION + 1;
    assert!(cache.validate_entry(&entry, content_hash).is_none());
}

#[test]
fn corrupted_line_hash_invalidates_the_entry() {
    let cache = cache_with_min_chars(3);
    let lines = sample_lines();
    let content_hash = compute_content_hash(&b"abc\n".to_vec());
    let mut entry = cache.make_entry(&lines, content_hash);
    entry.lines[0].hash = entry.lines[0].hash.wrapping_add(1);
    assert!(cache.validate_entry(&entry, content_hash).is_none());
}

#[test]
fn cache_path_is_a_fixed_width_name_under_the_directory() {
    let cache = cache_with_min_chars(3);
    let path = cache.cache_path("/some/very/long/source/path.c");
    assert!(path.starts_with("cache/"));
    assert!(path.ends_with(".cache"));
    assert_eq!(path.len(), "cache/".len() + 16 + ".cache".len());

    // Distinct paths get distinct names.
    let other = cache.cache_path("/other/path.c");
    assert_ne!(path, other);
}
