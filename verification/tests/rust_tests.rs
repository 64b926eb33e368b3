use duplo_core::filetype::rust_lang::RustFileType;

#[test]
fn test_basic_rust() {
    let ft = RustFileType::new(false, 3);
    let lines = vec![
        "fn main() {".to_string(),
        "    println!(\"Hello\");".to_string(),
        "}".to_string(),
    ];
    let result = ft.get_cleaned_source_lines(&lines);
    assert_eq!(result.len(), 2); // } is too short
}

#[test]
fn rust_lang_test_comment_removal() {
    let ft = RustFileType::new(false, 3);
    let lines = vec![
        "let x = 5; // comment".to_string(),
        "// full line comment".to_string(),
        "let y = 10;".to_string(),
    ];
    let result = ft.get_cleaned_source_lines(&lines);
    assert_eq!(result.len(), 2);
    assert_eq!(result[0].line(), "let x = 5;");
}

#[test]
fn test_nested_block_comment() {
    let ft = RustFileType::new(false, 3);
    let lines = vec![
        "let x = 5;".to_string(),
        "/* outer /* nested */ still comment */".to_string(),
        "let y = 10;".to_string(),
    ];
    let result = ft.get_cleaned_source_lines(&lines);
    assert_eq!(result.len(), 2);
}

#[test]
fn test_use_filtering() {
    let ft = RustFileType::new(true, 3);
    let lines = vec![
        "use std::io;".to_string(),
        "mod tests;".to_string(),
        "fn main() {".to_string(),
        "    println!(\"Hello\");".to_string(),
        "}".to_string(),
    ];
    let result = ft.get_cleaned_source_lines(&lines);
    // use, mod, and fn signature filtered; only body remains
    assert_eq!(result.len(), 1);
    assert_eq!(result[0].line(), "println!(\"Hello\");");
}

#[test]
fn rust_lang_test_function_signature_filtering() {
    let ft = RustFileType::new(true, 3);
    let lines = vec![
        "pub fn process_data(input: &str) -> Result<(), Error> {".to_string(),
        "    let result = parse(input)?;".to_string(),
        "    Ok(())".to_string(),
        "}".to_string(),
    ];
    let result = ft.get_cleaned_source_lines(&lines);
    assert_eq!(result.len(), 2);
    assert!(result.iter().any(|l| l.line().contains("parse(input)")));
}

#[test]
fn rust_lang_test_multiline_signature_filtering() {
    let ft = RustFileType::new(true, 3);
    let lines = vec![
        "#[derive(Debug)]".to_string(),
        "pub fn complex_function(".to_string(),
        "    param1: String,".to_string(),
        "    param2: i32,".to_string(),
        "    param3: Option<bool>,".to_string(),
        ") -> Result<Output, Error> {".to_string(),
        "    let x = do_something(param1);".to_string(),
        "    Ok(x)".to_string(),
        "}".to_string(),
    ];
    let result = ft.get_cleaned_source_lines(&lines);
    // Attribute and signature should be filtered
    assert_eq!(result.len(), 2);
    assert!(result.iter().any(|l| l.line().contains("do_something")));
}

#[test]
fn test_attribute_filtering() {
    let ft = RustFileType::new(true, 3);
    let lines = vec![
        "#[cfg(test)]".to_string(),
        "#[derive(Clone, Debug)]".to_string(),
        "struct MyStruct {".to_string(),
        "    field: i32,".to_string(),
        "}".to_string(),
    ];
    let result = ft.get_cleaned_source_lines(&lines);
    // Attributes filtered, struct declaration and body remain
    assert!(result.iter().all(|l| !l.line().starts_with("#[")));
}

#[test]
fn test_impl_method_filtering() {
    let ft = RustFileType::new(true, 3);
    let lines = vec![
        "impl MyStruct {".to_string(),
        "    pub fn new(value: i32) -> Self {".to_string(),
        "        Self { field: value }".to_string(),
        "    }".to_string(),
        "}".to_string(),
    ];
    let result = ft.get_cleaned_source_lines(&lines);
    // impl block stays, method signature filtered
    assert!(result.iter().any(|l| l.line().starts_with("impl")));
    assert!(result.iter().any(|l| l.line().contains("Self { field:")));
}

#[test]
fn rust_lang_test_signature_not_filtered_when_disabled() {
    let ft = RustFileType::new(false, 3);
    let lines = vec![
        "fn hello() {".to_string(),
        "    println!(\"world\");".to_string(),
        "}".to_string(),
    ];
    let result = ft.get_cleaned_source_lines(&lines);
    assert_eq!(result.len(), 2);
    assert_eq!(result[0].line(), "fn hello() {");
}

#[test]
fn rust_lang_test_control_structures_not_filtered() {
    let ft = RustFileType::new(true, 3);
    let lines = vec![
        "if condition {".to_string(),
        "    do_something();".to_string(),
        "}".to_string(),
        "for item in items {".to_string(),
        "    process(item);".to_string(),
        "}".to_string(),
    ];
    let result = ft.get_cleaned_source_lines(&lines);
    assert!(result.iter().any(|l| l.line().starts_with("if")));
    assert!(result.iter().any(|l| l.line().starts_with("for")));
}
