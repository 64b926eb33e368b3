use duplo_core::filetype::erlang::ErlangFileType;

#[test]
fn test_basic_erlang() {
    let ft = ErlangFileType::new(false, 3);
    let lines = vec![
        "hello() -> world.".to_string(),
        "foo(X) -> X + 1.".to_string(),
    ];
    let result = ft.get_cleaned_source_lines(&lines);
    assert_eq!(result.len(), 2);
}

#[test]
fn erlang_test_comment_removal() {
    let ft = ErlangFileType::new(false, 3);
    let lines = vec![
        "hello() -> world. % comment".to_string(),
        "% full line comment".to_string(),
        "foo(X) -> X + 1.".to_string(),
    ];
    let result = ft.get_cleaned_source_lines(&lines);
    assert_eq!(result.len(), 2);
}

#[test]
fn test_module_filtering() {
    let ft = ErlangFileType::new(true, 3);
    let lines = vec![
        "-module(test).".to_string(),
        "-export([hello/0]).".to_string(),
        "hello() -> world.".to_string(),
    ];
    let result = ft.get_cleaned_source_lines(&lines);
    assert_eq!(result.len(), 1);
}
