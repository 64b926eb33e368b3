use duplo_core::discovery::is_supported_file;

#[test]
fn test_is_supported_file_rust() {
    assert!(is_supported_file("main.rs"));
    assert!(is_supported_file("src/lib.rs"));
    assert!(is_supported_file("/path/to/file.rs"));
}

#[test]
fn test_is_supported_file_c_cpp() {
    assert!(is_supported_file("main.c"));
    assert!(is_supported_file("main.cpp"));
    assert!(is_supported_file("header.h"));
    assert!(is_supported_file("header.hpp"));
    assert!(is_supported_file("file.cc"));
    assert!(is_supported_file("file.cxx"));
}

#[test]
fn test_is_supported_file_javascript() {
    assert!(is_supported_file("app.js"));
    assert!(is_supported_file("app.ts"));
    assert!(is_supported_file("Component.jsx"));
    assert!(is_supported_file("Component.tsx"));
}

#[test]
fn test_is_supported_file_python() {
    assert!(is_supported_file("script.py"));
    assert!(is_supported_file("/path/to/module.py"));
}

#[test]
fn test_is_supported_file_java() {
    assert!(is_supported_file("Main.java"));
    assert!(is_supported_file("com/example/Class.java"));
}

#[test]
fn test_is_supported_file_unsupported() {
    assert!(!is_supported_file("README.md"));
    assert!(!is_supported_file("Cargo.toml"));
    assert!(!is_supported_file("package.json"));
    assert!(!is_supported_file("image.png"));
    assert!(!is_supported_file(".gitignore"));
    assert!(!is_supported_file("Makefile"));
}

#[test]
fn test_is_supported_file_case_insensitive() {
    assert!(is_supported_file("FILE.RS"));
    assert!(is_supported_file("Main.JAVA"));
    assert!(is_supported_file("script.PY"));
}

#[test]
fn test_is_supported_file_web() {
    assert!(is_supported_file("index.html"));
    assert!(is_supported_file("page.htm"));
    assert!(is_supported_file("styles.css"));
}

#[test]
fn test_is_supported_file_other_languages() {
    assert!(is_supported_file("Program.cs"));
    assert!(is_supported_file("Module.vb"));
    assert!(is_supported_file("server.erl"));
}
