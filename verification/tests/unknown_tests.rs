use duplo_core::filetype::unknown::UnknownFileType;

#[test]
fn unknown_test_basic_lines() {
    let ft = UnknownFileType::new(3);
    let lines = vec!["some text here".to_string(), "more text".to_string()];
    let result = ft.get_cleaned_source_lines(&lines);
    assert_eq!(result.len(), 2);
}

#[test]
fn test_empty_lines_filtered() {
    let ft = UnknownFileType::new(3);
    let lines = vec![
        "some text".to_string(),
        "".to_string(),
        "   ".to_string(),
        "more text".to_string(),
    ];
    let result = ft.get_cleaned_source_lines(&lines);
    assert_eq!(result.len(), 2);
}

#[test]
fn unknown_test_min_chars_filtering() {
    let ft = UnknownFileType::new(10);
    let lines = vec![
        "short".to_string(),
        "this is a longer line".to_string(),
    ];
    let result = ft.get_cleaned_source_lines(&lines);
    assert_eq!(result.len(), 1);
}
