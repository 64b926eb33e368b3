use duplo_core::baseline::Baseline;
use duplo_core::config::Config;
use duplo_core::detect::{
    detect_duplicates, filter_file_list, matrix_fits, max_lines_for_threads,
};
use duplo_core::source_file::SourceFile;

fn load(name: &str, text: &str, min_chars: u32) -> SourceFile {
    let lines: Vec<String> = text.split('\n').map(|l| l.to_string()).collect();
    SourceFile::from_raw_lines(name.to_string(), &lines, false, min_chars)
}

fn default_config() -> Config {
    let mut config = Config::default();
    config.num_threads = 1;
    config
}

#[test]
fn identical_c_files_give_one_full_block() {
    // Two identical 5-line C files under the defaults: one block of five
    // lines starting at the top of both files.
    let text = "int x = 5;\nint y = 10;\nint z = 15;\nint w = 20;\nreturn x;";
    let files = vec![load("a.c", text, 3), load("b.c", text, 3)];
    let config = default_config();
    let result = detect_duplicates(&files, &config);
    assert_eq!(result.blocks.len(), 1);
    assert_eq!(result.blocks[0].source1_idx, 0);
    assert_eq!(result.blocks[0].source2_idx, 1);
    assert_eq!(result.blocks[0].line1, 0);
    assert_eq!(result.blocks[0].line2, 0);
    assert_eq!(result.blocks[0].count, 5);
    assert_eq!(result.files_analyzed, 2);
    assert_eq!(result.total_lines, 10);
    assert_eq!(result.duplicate_lines, 5);
    assert_eq!(result.duplicate_blocks, 1);
}

#[test]
fn whitespace_only_differences_still_match() {
    // Lines differing only in spacing hash alike: four such pairs form one
    // block of four.
    let a = "int x = 5;\nint y = 10;\nint z = 15;\nint w = 20;";
    let b = "int   x=5;\nint   y=10;\nint   z=15;\nint   w=20;";
    let files = vec![load("a.c", a, 3), load("b.c", b, 3)];
    let config = default_config();
    let result = detect_duplicates(&files, &config);
    assert_eq!(result.blocks.len(), 1);
    assert_eq!(result.blocks[0].count, 4);
}

#[test]
fn self_duplicate_within_one_file() {
    // The same 6-line run at positions 0..6 and 20..26 of a single file:
    // exactly one self-block pairing the two positions.
    let mut lines: Vec<String> = Vec::new();
    for i in 0..6 {
        lines.push(format!("int repeated{} = {};", i, i));
    }
    for i in 0..14 {
        lines.push(format!("int filler{} = {};", i, i + 100));
    }
    for i in 0..6 {
        lines.push(format!("int repeated{} = {};", i, i));
    }
    let files = vec![SourceFile::from_raw_lines(
        "self.c".to_string(),
        &lines,
        false,
        3,
    )];
    let config = default_config();
    let result = detect_duplicates(&files, &config);
    assert_eq!(result.blocks.len(), 1);
    let b = &result.blocks[0];
    assert!(b.is_self_duplicate());
    assert_eq!(b.count, 6);
    assert!(b.line1 != b.line2);
    assert!(
        (b.line1 == 0 && b.line2 == 20) || (b.line1 == 20 && b.line2 == 0),
        "the block must pair positions 0 and 20"
    );
}

#[test]
fn min_block_size_filters_short_runs() {
    // Two files sharing exactly 3 consecutive lines: nothing at
    // min-block-size 4, one block of 3 at min-block-size 3.
    let a = "int shared1 = 1;\nint shared2 = 2;\nint shared3 = 3;\nint only_a = 4;";
    let b = "int only_b = 9;\nint shared1 = 1;\nint shared2 = 2;\nint shared3 = 3;";
    let files = vec![load("a.c", a, 3), load("b.c", b, 3)];

    let mut config = default_config();
    config.min_block_size = 4;
    let result = detect_duplicates(&files, &config);
    assert_eq!(result.blocks.len(), 0);

    config.min_block_size = 3;
    let result = detect_duplicates(&files, &config);
    assert_eq!(result.blocks.len(), 1);
    assert_eq!(result.blocks[0].count, 3);
}

#[test]
fn baseline_suppresses_known_blocks_only() {
    // A second run filtered against the first run's baseline reports
    // nothing; a newly introduced duplicated pair shows up alone.
    let text = "int x = 5;\nint y = 10;\nint z = 15;\nint w = 20;\nreturn x;";
    let files = vec![load("a.c", text, 3), load("b.c", text, 3)];
    let config = default_config();
    let first = detect_duplicates(&files, &config);
    let baseline = Baseline::from_results(&first, &files, config.detection_config_hash());

    let second = detect_duplicates(&files, &config);
    let filtered = baseline.filter_new_duplicates(second, &files);
    assert_eq!(filtered.duplicate_blocks, 0);

    let other = "char p = 'a';\nchar q = 'b';\nchar r = 'c';\nchar s = 'd';";
    let wider = vec![
        load("a.c", text, 3),
        load("b.c", text, 3),
        load("c.c", other, 3),
        load("d.c", other, 3),
    ];
    let third = detect_duplicates(&wider, &config);
    let filtered = baseline.filter_new_duplicates(third, &wider);
    assert_eq!(filtered.duplicate_blocks, 1);
    assert_eq!(filtered.blocks[0].source1_idx, 2);
    assert_eq!(filtered.blocks[0].source2_idx, 3);
}

#[test]
fn detection_is_deterministic_for_a_corpus() {
    // The block vector is a function of the corpus and the configuration
    // alone: two runs agree block for block.
    let text = "int x = 5;\nint y = 10;\nint z = 15;\nint w = 20;\nreturn x;";
    let files = vec![load("a.c", text, 3), load("b.c", text, 3)];
    let config = default_config();
    let r1 = detect_duplicates(&files, &config);
    let r2 = detect_duplicates(&files, &config);
    assert_eq!(r1.blocks, r2.blocks);
    assert_eq!(r1.duplicate_lines, r2.duplicate_lines);
}

#[test]
fn same_basename_pairs_can_be_skipped() {
    let text = "int x = 5;\nint y = 10;\nint z = 15;\nint w = 20;\nreturn x;";
    let files = vec![load("/p/test.c", text, 3), load("/q/test.c", text, 3)];
    let mut config = default_config();
    config.ignore_same_filename = true;
    let result = detect_duplicates(&files, &config);
    assert_eq!(result.blocks.len(), 0);

    config.ignore_same_filename = false;
    let result = detect_duplicates(&files, &config);
    assert_eq!(result.blocks.len(), 1);
}

#[test]
fn file_list_drops_short_entries() {
    let lines = vec![
        "src/main.c".to_string(),
        "a.c".to_string(),
        "     ".to_string(),
        "lib/deep/path.py".to_string(),
    ];
    let kept = filter_file_list(&lines);
    assert_eq!(kept, vec!["src/main.c".to_string(), "lib/deep/path.py".to_string()]);
}

#[test]
fn memory_ceiling_bounds_the_matrix() {
    assert!(matrix_fits(89442));
    assert!(!matrix_fits(89443));
    let m = max_lines_for_threads(1);
    assert!((m as u64) * (m as u64) <= 8_000_000_000);
    assert!(((m + 1) as u64) * ((m + 1) as u64) > 8_000_000_000);
    let m4 = max_lines_for_threads(4);
    assert!((m4 as u64) * (m4 as u64) <= 2_000_000_000);
}

#[test]
fn files_to_check_caps_the_outer_index() {
    let text = "int x = 5;\nint y = 10;\nint z = 15;\nint w = 20;\nreturn x;";
    let files = vec![load("a.c", text, 3), load("b.c", text, 3), load("c.c", text, 3)];
    let mut config = default_config();
    config.files_to_check = 1;
    let result = detect_duplicates(&files, &config);
    // Only file 0 serves as outer index: pairs (0,1) and (0,2), not (1,2).
    assert_eq!(result.files_analyzed, 1);
    assert_eq!(result.blocks.len(), 2);
}
