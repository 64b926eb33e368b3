use duplo_core::filetype::csharp::CSharpFileType;

#[test]
fn test_basic_csharp() {
    let ft = CSharpFileType::new(3);
    let lines = vec![
        "public class Test {".to_string(),
        "    int x = 5;".to_string(),
        "}".to_string(),
    ];
    let result = ft.get_cleaned_source_lines(&lines);
    assert_eq!(result.len(), 2);
}

#[test]
fn csharp_test_preprocessor_filtering() {
    let ft = CSharpFileType::new(3);
    let lines = vec![
        "#region MyRegion".to_string(),
        "int x = 5;".to_string(),
        "#endregion".to_string(),
    ];
    let result = ft.get_cleaned_source_lines(&lines);
    assert_eq!(result.len(), 1);
    assert_eq!(result[0].line(), "int x = 5;");
}
