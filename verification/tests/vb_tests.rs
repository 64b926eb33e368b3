use duplo_core::filetype::vb::VbFileType;

#[test]
fn test_basic_vb() {
    let ft = VbFileType::new(false, 3);
    let lines = vec![
        "Dim x As Integer = 5".to_string(),
        "Dim y As Integer = 10".to_string(),
    ];
    let result = ft.get_cleaned_source_lines(&lines);
    assert_eq!(result.len(), 2);
}

#[test]
fn vb_test_comment_removal() {
    let ft = VbFileType::new(false, 3);
    let lines = vec![
        "Dim x As Integer = 5 ' this is a comment".to_string(),
        "' full line comment".to_string(),
        "Dim y As Integer = 10".to_string(),
    ];
    let result = ft.get_cleaned_source_lines(&lines);
    assert_eq!(result.len(), 2);
    assert_eq!(result[0].line(), "Dim x As Integer = 5");
}

#[test]
fn test_imports_filtering() {
    let ft = VbFileType::new(true, 3);
    let lines = vec![
        "Imports System".to_string(),
        "Dim x As Integer = 5".to_string(),
    ];
    let result = ft.get_cleaned_source_lines(&lines);
    assert_eq!(result.len(), 1);
}
