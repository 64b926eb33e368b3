use duplo_core::filetype::java::JavaFileType;

#[test]
fn test_basic_java() {
    let ft = JavaFileType::new(false, 3);
    let lines = vec![
        "public class Test {".to_string(),
        "    int x = 5;".to_string(),
        "}".to_string(),
    ];
    let result = ft.get_cleaned_source_lines(&lines);
    assert_eq!(result.len(), 2); // } is too short
}

#[test]
fn java_test_import_filtering() {
    let ft = JavaFileType::new(true, 3);
    let lines = vec![
        "package com.example;".to_string(),
        "import java.util.List;".to_string(),
        "public class Test {".to_string(),
        "    int x = 5;".to_string(),
        "}".to_string(),
    ];
    let result = ft.get_cleaned_source_lines(&lines);
    // With preprocessor filtering: public class should be filtered too
    assert!(result.iter().all(|l| !l.line().starts_with("package")));
    assert!(result.iter().all(|l| !l.line().starts_with("import")));
}

#[test]
fn test_javadoc_comment() {
    let ft = JavaFileType::new(false, 3);
    let lines = vec![
        "/**".to_string(),
        " * Javadoc comment".to_string(),
        " */".to_string(),
        "public void test() {".to_string(),
    ];
    let result = ft.get_cleaned_source_lines(&lines);
    assert_eq!(result.len(), 1);
    assert_eq!(result[0].line(), "public void test() {");
}

#[test]
fn java_test_single_line_signature_filtering() {
    let ft = JavaFileType::new(true, 3);
    let lines = vec![
        "public void doSomething(String param) {".to_string(),
        "    System.out.println(param);".to_string(),
        "}".to_string(),
    ];
    let result = ft.get_cleaned_source_lines(&lines);
    // Signature should be filtered, only body remains
    assert_eq!(result.len(), 1);
    assert_eq!(result[0].line(), "System.out.println(param);");
}

#[test]
fn java_test_multiline_signature_filtering() {
    let ft = JavaFileType::new(true, 3);
    let lines = vec![
        "@Override".to_string(),
        "public ResponseEntity<Result> processRequest(".to_string(),
        "        String id,".to_string(),
        "        RequestBody body,".to_string(),
        "        HttpHeaders headers) {".to_string(),
        "    return service.process(id, body);".to_string(),
        "}".to_string(),
    ];
    let result = ft.get_cleaned_source_lines(&lines);
    // Annotation and signature should be filtered
    assert_eq!(result.len(), 1);
    assert_eq!(result[0].line(), "return service.process(id, body);");
}

#[test]
fn test_annotation_filtering() {
    let ft = JavaFileType::new(true, 3);
    let lines = vec![
        "@Deprecated".to_string(),
        "@SuppressWarnings(\"unused\")".to_string(),
        "private int value;".to_string(),
    ];
    let result = ft.get_cleaned_source_lines(&lines);
    // Annotations filtered, field remains
    assert_eq!(result.len(), 1);
    assert_eq!(result[0].line(), "private int value;");
}

#[test]
fn java_test_signature_not_filtered_when_disabled() {
    let ft = JavaFileType::new(false, 3);
    let lines = vec![
        "public void test() {".to_string(),
        "    int x = 5;".to_string(),
        "}".to_string(),
    ];
    let result = ft.get_cleaned_source_lines(&lines);
    // Should have both signature and body
    assert_eq!(result.len(), 2);
    assert_eq!(result[0].line(), "public void test() {");
}

#[test]
fn java_test_control_structures_not_filtered() {
    let ft = JavaFileType::new(true, 3);
    let lines = vec![
        "if (condition) {".to_string(),
        "    doSomething();".to_string(),
        "}".to_string(),
        "for (int i = 0; i < 10; i++) {".to_string(),
        "    process(i);".to_string(),
        "}".to_string(),
    ];
    let result = ft.get_cleaned_source_lines(&lines);
    // Control structures should NOT be filtered
    assert_eq!(result.len(), 4);
    assert!(result.iter().any(|l| l.line().starts_with("if")));
    assert!(result.iter().any(|l| l.line().starts_with("for")));
}

#[test]
fn test_interface_method_filtering() {
    let ft = JavaFileType::new(true, 3);
    let lines = vec![
        "public interface Service {".to_string(),
        "    Result process(Input input);".to_string(),
        "    void validate(Data data);".to_string(),
        "}".to_string(),
    ];
    let result = ft.get_cleaned_source_lines(&lines);
    // Interface declaration stays, abstract methods are filtered
    // (they end with ; not {, but they still match signature pattern)
    assert!(result.len() >= 1);
}
