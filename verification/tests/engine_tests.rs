use duplo_core::config::Config;
use duplo_core::engine::{calc_min_block_size, process_file_pair, ThreadContext};
use duplo_core::hash::hash_line;
use duplo_core::index::build_hash_index;
use duplo_core::line::SourceLine;
use duplo_core::source_file::SourceFile;

#[test]
fn test_calc_min_block_size() {
    let mut config = Config::default();
    config.min_block_size = 4;
    config.block_percent_threshold = 100;

    // With 100% threshold, should just return min_block_size
    assert_eq!(calc_min_block_size(&config, 100, 100), 4);

    // With lower threshold, might return larger value
    config.block_percent_threshold = 10;
    let result = calc_min_block_size(&config, 100, 100);
    assert!(result >= 4);
}

#[test]
fn test_build_hash_index() {
    let lines1 = vec![
        SourceLine::new("int x = 5;".to_string(), 1),
        SourceLine::new("int y = 10;".to_string(), 2),
    ];
    let lines2 = vec![
        SourceLine::new("int x = 5;".to_string(), 1), // duplicate
        SourceLine::new("int z = 15;".to_string(), 2),
    ];
    let sf1 = SourceFile::from_lines("a.c".to_string(), lines1);
    let sf2 = SourceFile::from_lines("b.c".to_string(), lines2);
    let files = vec![sf1, sf2];

    let index = build_hash_index(&files);

    // The hash of "int x = 5;" should map to both files
    let hash = hash_line("int x = 5;");
    let files_with_hash = index.get(&hash).unwrap();
    assert!(files_with_hash.contains(&0));
    assert!(files_with_hash.contains(&1));
}

#[test]
fn test_process_identical_files() {
    let lines = vec![
        SourceLine::new("line1".to_string(), 1),
        SourceLine::new("line2".to_string(), 2),
        SourceLine::new("line3".to_string(), 3),
        SourceLine::new("line4".to_string(), 4),
        SourceLine::new("line5".to_string(), 5),
    ];
    let sf1 = SourceFile::from_lines("a.c".to_string(), lines.clone());
    let sf2 = SourceFile::from_lines("b.c".to_string(), lines);

    let mut config = Config::default();
    config.min_block_size = 4;

    let mut context = ThreadContext::new(10);
    let blocks = process_file_pair(&sf1, &sf2, 0, 1, &config, &mut context);

    // Should find one block of 5 lines
    assert_eq!(blocks.len(), 1);
    assert_eq!(blocks[0].count, 5);
}

#[test]
fn test_process_no_duplicates() {
    let lines1 = vec![
        SourceLine::new("aaa".to_string(), 1),
        SourceLine::new("bbb".to_string(), 2),
    ];
    let lines2 = vec![
        SourceLine::new("ccc".to_string(), 1),
        SourceLine::new("ddd".to_string(), 2),
    ];
    let sf1 = SourceFile::from_lines("a.c".to_string(), lines1);
    let sf2 = SourceFile::from_lines("b.c".to_string(), lines2);

    let config = Config::default();
    let mut context = ThreadContext::new(10);
    let blocks = process_file_pair(&sf1, &sf2, 0, 1, &config, &mut context);

    assert!(blocks.is_empty());
}

#[test]
fn blocks_are_maximal_on_each_diagonal() {
    // A shared run of exactly four lines surrounded by differing lines:
    // the reported block covers the whole run and nothing more.
    let mk = |name: &str, texts: Vec<&str>| {
        let lines = texts
            .iter()
            .enumerate()
            .map(|(i, t)| SourceLine::new(t.to_string(), i + 1))
            .collect();
        SourceFile::from_lines(name.to_string(), lines)
    };
    let sf1 = mk("a.c", vec!["only in a", "same one", "same two", "same three", "same four", "tail a"]);
    let sf2 = mk("b.c", vec!["only in b", "same one", "same two", "same three", "same four", "tail b"]);

    let mut config = Config::default();
    config.min_block_size = 4;
    let mut context = ThreadContext::new(6);
    let blocks = process_file_pair(&sf1, &sf2, 0, 1, &config, &mut context);
    assert_eq!(blocks.len(), 1);
    assert_eq!(blocks[0].line1, 1);
    assert_eq!(blocks[0].line2, 1);
    assert_eq!(blocks[0].count, 4);
}

#[test]
fn matrix_wrapper_round_trip_detects_matches() {
    // If the bit matrix dropped or invented bits, this comparison would
    // not find exactly the one expected block.
    let lines: Vec<SourceLine> = (0..8)
        .map(|i| SourceLine::new(format!("stmt number {};", i), i + 1))
        .collect();
    let sf1 = SourceFile::from_lines("x.c".to_string(), lines.clone());
    let sf2 = SourceFile::from_lines("y.c".to_string(), lines);
    let mut config = Config::default();
    config.min_block_size = 8;
    let mut context = ThreadContext::new(8);
    let blocks = process_file_pair(&sf1, &sf2, 0, 1, &config, &mut context);
    assert_eq!(blocks.len(), 1);
    assert_eq!(blocks[0].count, 8);
}
