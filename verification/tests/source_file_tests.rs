use duplo_core::line::SourceLine;
use duplo_core::source_file::SourceFile;

#[test]
fn test_source_file_from_lines() {
    let lines = vec![
        SourceLine::new("int x = 5;".to_string(), 1),
        SourceLine::new("int y = 10;".to_string(), 2),
    ];
    let sf = SourceFile::from_lines("test.c".to_string(), lines);

    assert_eq!(sf.filename(), "test.c");
    assert_eq!(sf.num_lines(), 2);
    assert_eq!(sf.get_line(0).line(), "int x = 5;");
}

#[test]
fn test_basename() {
    let sf = SourceFile::from_lines("/path/to/test.c".to_string(), vec![]);
    assert_eq!(sf.basename(), "test.c");
}

#[test]
fn test_same_basename() {
    let sf1 = SourceFile::from_lines("/path/a/test.c".to_string(), vec![]);
    let sf2 = SourceFile::from_lines("/path/b/test.c".to_string(), vec![]);
    let sf3 = SourceFile::from_lines("/path/a/other.c".to_string(), vec![]);

    assert!(sf1.has_same_basename(&sf2));
    assert!(!sf1.has_same_basename(&sf3));
}

#[test]
fn test_get_lines() {
    let lines = vec![
        SourceLine::new("line1".to_string(), 1),
        SourceLine::new("line2".to_string(), 2),
        SourceLine::new("line3".to_string(), 3),
    ];
    let sf = SourceFile::from_lines("test.c".to_string(), lines);

    let range = sf.get_lines(0, 2);
    assert_eq!(range, vec!["line1", "line2"]);
}

#[test]
fn test_equality() {
    let sf1 = SourceFile::from_lines("test.c".to_string(), vec![]);
    let sf2 = SourceFile::from_lines("test.c".to_string(), vec![]);
    let sf3 = SourceFile::from_lines("other.c".to_string(), vec![]);

    assert_eq!(sf1, sf2);
    assert_ne!(sf1, sf3);
}
