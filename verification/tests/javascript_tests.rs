use duplo_core::filetype::javascript::JavaScriptFileType;

#[test]
fn test_basic_javascript() {
    let ft = JavaScriptFileType::new(3);
    let lines = vec![
        "function hello() {".to_string(),
        "    return 'world';".to_string(),
        "}".to_string(),
    ];
    let result = ft.get_cleaned_source_lines(&lines);
    // Signature filtered, only body remains
    assert_eq!(result.len(), 1);
    assert_eq!(result[0].line(), "return 'world';");
}

#[test]
fn javascript_test_comment_removal() {
    let ft = JavaScriptFileType::new(3);
    let lines = vec![
        "const x = 5; // comment".to_string(),
        "// full line comment".to_string(),
        "const y = 10;".to_string(),
    ];
    let result = ft.get_cleaned_source_lines(&lines);
    assert_eq!(result.len(), 2);
}

#[test]
fn javascript_test_import_filtering() {
    let ft = JavaScriptFileType::new(3);
    let lines = vec![
        "import React from 'react';".to_string(),
        "export const foo = 1;".to_string(),
        "function hello() {".to_string(),
        "    return 'world';".to_string(),
        "}".to_string(),
    ];
    let result = ft.get_cleaned_source_lines(&lines);
    // Imports, exports, and function signature filtered; only body remains
    assert_eq!(result.len(), 1);
    assert_eq!(result[0].line(), "return 'world';");
}

#[test]
fn test_jsdoc_filtering() {
    let ft = JavaScriptFileType::new(3);
    let lines = vec![
        "/**".to_string(),
        " * JSDoc comment".to_string(),
        " */".to_string(),
        "function hello() {".to_string(),
    ];
    let result = ft.get_cleaned_source_lines(&lines);
    // Block comment and signature filtered
    assert_eq!(result.len(), 0);
}

#[test]
fn javascript_test_function_signature_filtering() {
    let ft = JavaScriptFileType::new(3);
    let lines = vec![
        "function processData(input) {".to_string(),
        "    return input.map(x => x * 2);".to_string(),
        "}".to_string(),
    ];
    let result = ft.get_cleaned_source_lines(&lines);
    assert_eq!(result.len(), 1);
    assert_eq!(result[0].line(), "return input.map(x => x * 2);");
}

#[test]
fn test_async_function_signature_filtering() {
    let ft = JavaScriptFileType::new(3);
    let lines = vec![
        "async function fetchData(url) {".to_string(),
        "    const response = await fetch(url);".to_string(),
        "    return response.json();".to_string(),
        "}".to_string(),
    ];
    let result = ft.get_cleaned_source_lines(&lines);
    assert_eq!(result.len(), 2);
    assert!(result.iter().any(|l| l.line().contains("fetch(url)")));
}

#[test]
fn test_multiline_typescript_signature_filtering() {
    let ft = JavaScriptFileType::new(3);
    let lines = vec![
        "@Decorator()".to_string(),
        "async processRequest(".to_string(),
        "    id: string,".to_string(),
        "    body: RequestBody,".to_string(),
        "): Promise<Result> {".to_string(),
        "    return await this.service.process(id, body);".to_string(),
        "}".to_string(),
    ];
    let result = ft.get_cleaned_source_lines(&lines);
    assert_eq!(result.len(), 1);
    assert_eq!(
        result[0].line(),
        "return await this.service.process(id, body);"
    );
}

#[test]
fn test_class_method_signature_filtering() {
    let ft = JavaScriptFileType::new(3);
    let lines = vec![
        "public getValue(): number {".to_string(),
        "    return this._value;".to_string(),
        "}".to_string(),
    ];
    let result = ft.get_cleaned_source_lines(&lines);
    assert_eq!(result.len(), 1);
    assert_eq!(result[0].line(), "return this._value;");
}

#[test]
fn javascript_test_control_structures_not_filtered() {
    let ft = JavaScriptFileType::new(3);
    let lines = vec![
        "if (condition) {".to_string(),
        "    doSomething();".to_string(),
        "}".to_string(),
        "for (const item of items) {".to_string(),
        "    process(item);".to_string(),
        "}".to_string(),
    ];
    let result = ft.get_cleaned_source_lines(&lines);
    assert!(result.iter().any(|l| l.line().starts_with("if")));
    assert!(result.iter().any(|l| l.line().starts_with("for")));
}

#[test]
fn javascript_test_decorator_filtering() {
    let ft = JavaScriptFileType::new(3);
    let lines = vec![
        "@Injectable()".to_string(),
        "@Autowired".to_string(),
        "private service: Service;".to_string(),
    ];
    let result = ft.get_cleaned_source_lines(&lines);
    assert_eq!(result.len(), 1);
    assert_eq!(result[0].line(), "private service: Service;");
}
