use duplo_core::baseline::{check_baseline_version, Baseline, BaselineEntry, BASELINE_VERSION};
use duplo_core::block::Block;
use duplo_core::detect::DuploResult;
use duplo_core::error::DuploError;
use duplo_core::line::SourceLine;
use duplo_core::source_file::SourceFile;

fn create_test_source_files() -> Vec<SourceFile> {
    let lines1 = vec![
        SourceLine::new("int x = 5;".to_string(), 1),
        SourceLine::new("int y = 10;".to_string(), 2),
        SourceLine::new("return x + y;".to_string(), 3),
    ];
    let lines2 = vec![
        SourceLine::new("int x = 5;".to_string(), 1),
        SourceLine::new("int y = 10;".to_string(), 2),
        SourceLine::new("return x + y;".to_string(), 3),
    ];

    vec![
        SourceFile::from_lines("a.c".to_string(), lines1),
        SourceFile::from_lines("b.c".to_string(), lines2),
    ]
}

#[test]
fn test_baseline_entry_normalization() {
    let entry1 = BaselineEntry::new("b.c".to_string(), "a.c".to_string(), 123, 5);
    let entry2 = BaselineEntry::new("a.c".to_string(), "b.c".to_string(), 123, 5);

    // Both should have the same normalized order
    assert_eq!(entry1.file1, "a.c");
    assert_eq!(entry1.file2, "b.c");
    assert_eq!(entry1, entry2);
}

#[test]
fn test_baseline_from_results() {
    let source_files = create_test_source_files();
    let result = DuploResult {
        blocks: vec![Block::new(0, 1, 0, 0, 3)],
        files_analyzed: 2,
        total_lines: 6,
        duplicate_lines: 3,
        duplicate_blocks: 1,
    };

    let baseline = Baseline::from_results(&result, &source_files, 12345);

    assert_eq!(baseline.version, BASELINE_VERSION);
    assert_eq!(baseline.config_hash, 12345);
    assert_eq!(baseline.entries.len(), 1);
}

#[test]
fn test_baseline_contains() {
    let source_files = create_test_source_files();
    let block = Block::new(0, 1, 0, 0, 3);

    let result = DuploResult {
        blocks: vec![block.clone()],
        files_analyzed: 2,
        total_lines: 6,
        duplicate_lines: 3,
        duplicate_blocks: 1,
    };

    let baseline = Baseline::from_results(&result, &source_files, 12345);

    // Same block should be found in baseline
    assert!(baseline.contains(&block, &source_files));

    // Different block should not be found
    let different_block = Block::new(0, 1, 1, 1, 2);
    assert!(!baseline.contains(&different_block, &source_files));
}

#[test]
fn test_filter_new_duplicates() {
    let source_files = create_test_source_files();

    // Create baseline with one block
    let baseline_result = DuploResult {
        blocks: vec![Block::new(0, 1, 0, 0, 2)],
        files_analyzed: 2,
        total_lines: 6,
        duplicate_lines: 2,
        duplicate_blocks: 1,
    };
    let baseline = Baseline::from_results(&baseline_result, &source_files, 12345);

    // Create new result with two blocks (one existing, one new)
    let new_result = DuploResult {
        blocks: vec![
            Block::new(0, 1, 0, 0, 2), // Same as baseline
            Block::new(0, 1, 1, 1, 2), // New duplicate
        ],
        files_analyzed: 2,
        total_lines: 6,
        duplicate_lines: 4,
        duplicate_blocks: 2,
    };

    let filtered = baseline.filter_new_duplicates(new_result, &source_files);

    // Should only have the new block
    assert_eq!(filtered.duplicate_blocks, 1);
}

#[test]
fn filtering_against_own_baseline_leaves_nothing() {
    // A result filtered against the baseline built from that same result
    // keeps zero blocks.
    let source_files = create_test_source_files();
    let result = DuploResult {
        blocks: vec![Block::new(0, 1, 0, 0, 3), Block::new(0, 1, 1, 1, 2)],
        files_analyzed: 2,
        total_lines: 6,
        duplicate_lines: 5,
        duplicate_blocks: 2,
    };
    let baseline = Baseline::from_results(&result, &source_files, 7);
    let rerun = DuploResult {
        blocks: vec![Block::new(0, 1, 0, 0, 3), Block::new(0, 1, 1, 1, 2)],
        files_analyzed: 2,
        total_lines: 6,
        duplicate_lines: 5,
        duplicate_blocks: 2,
    };
    let filtered = baseline.filter_new_duplicates(rerun, &source_files);
    assert_eq!(filtered.duplicate_blocks, 0);
    assert_eq!(filtered.duplicate_lines, 0);
    assert!(filtered.blocks.is_empty());
}

#[test]
fn entry_set_drops_repeated_fingerprints() {
    let e = BaselineEntry::new("a.c".to_string(), "b.c".to_string(), 9, 4);
    let baseline = Baseline {
        version: BASELINE_VERSION,
        config_hash: 0,
        entries: vec![e.clone(), e.clone(), e],
    };
    assert_eq!(baseline.entry_set().len(), 1);
}

#[test]
fn version_mismatch_is_reported() {
    assert!(check_baseline_version(BASELINE_VERSION).is_ok());
    match check_baseline_version(2) {
        Err(DuploError::BaselineVersionMismatch { found, expected }) => {
            assert_eq!(found, 2);
            assert_eq!(expected, BASELINE_VERSION);
        },
        _ => panic!("a version mismatch must be reported"),
    }
}
