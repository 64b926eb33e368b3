use duplo_core::line::SourceLine;

#[test]
fn test_source_line_creation() {
    let line = SourceLine::new("int x = 5;".to_string(), 10);
    assert_eq!(line.line(), "int x = 5;");
    assert_eq!(line.line_number(), 10);
    assert_ne!(line.hash(), 0);
}

#[test]
fn test_source_line_equality() {
    let line1 = SourceLine::new("int x = 5;".to_string(), 10);
    let line2 = SourceLine::new("int x = 5;".to_string(), 20);
    let line3 = SourceLine::new("int y = 5;".to_string(), 10);

    // Same content, different line numbers should be equal (hash-based)
    assert_eq!(line1, line2);
    // Different content should not be equal
    assert_ne!(line1, line3);
}

#[test]
fn test_source_line_whitespace_equality() {
    let line1 = SourceLine::new("int x = 5;".to_string(), 1);
    let line2 = SourceLine::new("int  x  =  5;".to_string(), 2);

    // Whitespace differences should be normalized in hash
    assert_eq!(line1, line2);
}
