use duplo_core::filetype::html::HtmlFileType;

#[test]
fn test_basic_html() {
    let ft = HtmlFileType::new(3);
    let lines = vec![
        "<html>".to_string(),
        "<body>".to_string(),
        "<p>Hello World</p>".to_string(),
        "</body>".to_string(),
        "</html>".to_string(),
    ];
    let result = ft.get_cleaned_source_lines(&lines);
    assert!(result.len() >= 1);
}

#[test]
fn html_test_comment_removal() {
    let ft = HtmlFileType::new(3);
    let lines = vec![
        "<div>content</div>".to_string(),
        "<!-- this is a comment -->".to_string(),
        "<p>more content</p>".to_string(),
    ];
    let result = ft.get_cleaned_source_lines(&lines);
    assert_eq!(result.len(), 2);
}

#[test]
fn test_multiline_comment() {
    let ft = HtmlFileType::new(3);
    let lines = vec![
        "<div>before</div>".to_string(),
        "<!-- start of".to_string(),
        "multiline comment".to_string(),
        "end --> <p>after</p>".to_string(),
    ];
    let result = ft.get_cleaned_source_lines(&lines);
    // Should have "before" and "after" content
    assert_eq!(result.len(), 2);
}
