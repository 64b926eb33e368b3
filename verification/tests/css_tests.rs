use duplo_core::filetype::css::CssFileType;

#[test]
fn test_basic_css() {
    let ft = CssFileType::new(3);
    let lines = vec![
        ".container {".to_string(),
        "    width: 100%;".to_string(),
        "}".to_string(),
    ];
    let result = ft.get_cleaned_source_lines(&lines);
    assert_eq!(result.len(), 2);
}

#[test]
fn css_test_comment_removal() {
    let ft = CssFileType::new(3);
    let lines = vec![
        ".class { /* inline comment */ color: red; }".to_string(),
        "/* full line comment */".to_string(),
        ".other { color: blue; }".to_string(),
    ];
    let result = ft.get_cleaned_source_lines(&lines);
    assert_eq!(result.len(), 2);
}

#[test]
fn css_test_import_filtering() {
    let ft = CssFileType::new(3);
    let lines = vec![
        "@import 'reset.css';".to_string(),
        "@charset \"UTF-8\";".to_string(),
        ".container { width: 100%; }".to_string(),
    ];
    let result = ft.get_cleaned_source_lines(&lines);
    assert_eq!(result.len(), 1);
}
