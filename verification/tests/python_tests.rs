use duplo_core::filetype::python::PythonFileType;

#[test]
fn test_basic_python() {
    let ft = PythonFileType::new(3);
    let lines = vec!["def hello():".to_string(), "    return 'world'".to_string()];
    let result = ft.get_cleaned_source_lines(&lines);
    // Signature is filtered, only body remains
    assert_eq!(result.len(), 1);
    assert_eq!(result[0].line(), "return 'world'");
}

#[test]
fn python_test_comment_removal() {
    let ft = PythonFileType::new(3);
    let lines = vec![
        "x = 5  # this is a comment".to_string(),
        "# full line comment".to_string(),
        "y = 10".to_string(),
    ];
    let result = ft.get_cleaned_source_lines(&lines);
    assert_eq!(result.len(), 2);
    assert_eq!(result[0].line(), "x = 5");
}

#[test]
fn python_test_import_filtering() {
    let ft = PythonFileType::new(3);
    let lines = vec![
        "import os".to_string(),
        "from typing import List".to_string(),
        "def hello():".to_string(),
        "    return 'world'".to_string(),
    ];
    let result = ft.get_cleaned_source_lines(&lines);
    // Imports and signatures are filtered, only body remains
    assert_eq!(result.len(), 1);
    assert_eq!(result[0].line(), "return 'world'");
}

#[test]
fn test_docstring_filtering() {
    let ft = PythonFileType::new(3);
    let lines = vec![
        "def hello():".to_string(),
        "    \"\"\"This is a docstring.\"\"\"".to_string(),
        "    return 'world'".to_string(),
    ];
    let result = ft.get_cleaned_source_lines(&lines);
    // Signature filtered, docstring filtered, only body remains
    assert_eq!(result.len(), 1);
    assert_eq!(result[0].line(), "return 'world'");
}

#[test]
fn test_multiline_docstring_with_content_on_first_line() {
    let ft = PythonFileType::new(3);
    let lines = vec![
        "def run_scan(self, context):".to_string(),
        "    \"\"\"Run duplication detection on the entire project.".to_string(),
        "".to_string(),
        "    Note: Always scans the entire project.".to_string(),
        "".to_string(),
        "    Args:".to_string(),
        "        context: Scan context with project root.".to_string(),
        "        threshold: Maximum allowed duplication percentage.".to_string(),
        "        min_lines: Minimum lines for a duplicate block.".to_string(),
        "".to_string(),
        "    Returns:".to_string(),
        "        DuplicationResult with statistics and issues.".to_string(),
        "    \"\"\"".to_string(),
        "    return self.scan(context)".to_string(),
    ];
    let result = ft.get_cleaned_source_lines(&lines);
    // Signature and docstring filtered, only body remains
    assert_eq!(result.len(), 1);
    assert_eq!(result[0].line(), "return self.scan(context)");
}

#[test]
fn test_docstring_on_same_line_as_def() {
    // Pattern: def foo(): followed by a docstring on the same line
    let ft = PythonFileType::new(3);
    let lines = vec![
        "def foo(): \"\"\"This is a docstring.".to_string(),
        "    More docstring content.".to_string(),
        "    \"\"\"".to_string(),
        "    return 42".to_string(),
    ];
    let result = ft.get_cleaned_source_lines(&lines);
    // Signature and docstring filtered, only body remains
    assert_eq!(result.len(), 1);
    assert_eq!(result[0].line(), "return 42");
}

#[test]
fn test_single_quote_docstring() {
    let ft = PythonFileType::new(3);
    let lines = vec![
        "def hello():".to_string(),
        "    '''Single quote docstring.".to_string(),
        "    With multiple lines.".to_string(),
        "    '''".to_string(),
        "    return 'world'".to_string(),
    ];
    let result = ft.get_cleaned_source_lines(&lines);
    // Signature and docstring filtered, only body remains
    assert_eq!(result.len(), 1);
    assert_eq!(result[0].line(), "return 'world'");
}

#[test]
fn python_test_multiline_signature_filtering() {
    let ft = PythonFileType::new(3);
    let lines = vec![
        "@abstractmethod".to_string(),
        "def detect_duplication(".to_string(),
        "    self,".to_string(),
        "    context: ScanContext,".to_string(),
        "    threshold: float = 10.0,".to_string(),
        "    min_lines: int = 4,".to_string(),
        ") -> DuplicationResult:".to_string(),
        "    return self.scan()".to_string(),
    ];
    let result = ft.get_cleaned_source_lines(&lines);
    // Should only have the body, not the signature or decorator
    assert_eq!(result.len(), 1);
    assert_eq!(result[0].line(), "return self.scan()");
}

#[test]
fn python_test_single_line_signature_filtering() {
    let ft = PythonFileType::new(3);
    let lines = vec![
        "def hello(self):".to_string(),
        "    return 'world'".to_string(),
    ];
    let result = ft.get_cleaned_source_lines(&lines);
    // Should only have the body
    assert_eq!(result.len(), 1);
    assert_eq!(result[0].line(), "return 'world'");
}

#[test]
fn python_test_decorator_filtering() {
    let ft = PythonFileType::new(3);
    let lines = vec![
        "@property".to_string(),
        "@abstractmethod".to_string(),
        "def value(self):".to_string(),
        "    return self._value".to_string(),
    ];
    let result = ft.get_cleaned_source_lines(&lines);
    // Should only have the body
    assert_eq!(result.len(), 1);
    assert_eq!(result[0].line(), "return self._value");
}

#[test]
fn test_async_signature_filtering() {
    let ft = PythonFileType::new(3);
    let lines = vec![
        "async def fetch_data(".to_string(),
        "    self,".to_string(),
        "    url: str,".to_string(),
        ") -> Response:".to_string(),
        "    return await self.client.get(url)".to_string(),
    ];
    let result = ft.get_cleaned_source_lines(&lines);
    assert_eq!(result.len(), 1);
    assert_eq!(result[0].line(), "return await self.client.get(url)");
}
