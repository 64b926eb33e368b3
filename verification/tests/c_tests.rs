use duplo_core::filetype::c::CFileType;

#[test]
fn c_test_basic_lines() {
    let ft = CFileType::new(false, 3);
    let lines = vec!["int x = 5;".to_string(), "int y = 10;".to_string()];
    let result = ft.get_cleaned_source_lines(&lines);
    assert_eq!(result.len(), 2);
    assert_eq!(result[0].line(), "int x = 5;");
    assert_eq!(result[0].line_number(), 1);
}

#[test]
fn test_single_line_comment_removal() {
    let ft = CFileType::new(false, 3);
    let lines = vec![
        "int x = 5; // this is a comment".to_string(),
        "// full line comment".to_string(),
        "int y = 10;".to_string(),
    ];
    let result = ft.get_cleaned_source_lines(&lines);
    assert_eq!(result.len(), 2);
    assert_eq!(result[0].line(), "int x = 5;");
}

#[test]
fn test_block_comment_removal() {
    let ft = CFileType::new(false, 3);
    let lines = vec![
        "int x /* comment */ = 5;".to_string(),
        "/* start".to_string(),
        "middle".to_string(),
        "end */ int y = 10;".to_string(),
    ];
    let result = ft.get_cleaned_source_lines(&lines);
    assert_eq!(result.len(), 2);
    assert_eq!(result[0].line(), "int x  = 5;");
    assert_eq!(result[1].line(), "int y = 10;");
}

#[test]
fn c_test_preprocessor_filtering() {
    let ft = CFileType::new(true, 3);
    let lines = vec![
        "#include <stdio.h>".to_string(),
        "#define MAX 100".to_string(),
        "int x = 5;".to_string(),
    ];
    let result = ft.get_cleaned_source_lines(&lines);
    assert_eq!(result.len(), 1);
    assert_eq!(result[0].line(), "int x = 5;");
}

#[test]
fn test_preprocessor_kept() {
    let ft = CFileType::new(false, 3);
    let lines = vec!["#include <stdio.h>".to_string(), "int x = 5;".to_string()];
    let result = ft.get_cleaned_source_lines(&lines);
    assert_eq!(result.len(), 2);
}

#[test]
fn c_test_min_chars_filtering() {
    let ft = CFileType::new(false, 5);
    let lines = vec![
        "int x = 5;".to_string(),
        "x++".to_string(), // too short after filtering
        "int y = 10;".to_string(),
    ];
    let result = ft.get_cleaned_source_lines(&lines);
    assert_eq!(result.len(), 2);
}

#[test]
fn cleaning_a_cleaned_line_changes_nothing() {
    // Cleaning an already-cleaned line yields the same line.
    let ft = CFileType::new(false, 3);
    let first = ft.get_cleaned_source_lines(&vec![
        "  int x = 5; /* note */ // tail".to_string(),
    ]);
    assert_eq!(first.len(), 1);
    let again = ft.get_cleaned_source_lines(&vec![first[0].line().to_string()]);
    assert_eq!(again.len(), 1);
    assert_eq!(again[0].line(), first[0].line());
}
