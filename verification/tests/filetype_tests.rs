use duplo_core::filetype::{create_file_type, is_valid_line};

#[test]
fn test_is_valid_line() {
    assert!(is_valid_line("int x = 5;", 3));
    assert!(is_valid_line("abc", 3));
    assert!(!is_valid_line("ab", 3)); // too short
    assert!(!is_valid_line("123", 3)); // no alphabetic
    assert!(!is_valid_line("   ", 3)); // only whitespace
}

#[test]
fn test_create_file_type_c() {
    let ft = create_file_type("test.cpp", false, 3);
    assert_eq!(ft.name(), "C/C++");
}

#[test]
fn test_create_file_type_java() {
    let ft = create_file_type("Test.java", false, 3);
    assert_eq!(ft.name(), "Java");
}

#[test]
fn test_create_file_type_unknown() {
    let ft = create_file_type("test.xyz", false, 3);
    assert_eq!(ft.name(), "Unknown");
}

#[test]
fn test_create_file_type_case_insensitive() {
    let ft1 = create_file_type("test.CPP", false, 3);
    let ft2 = create_file_type("test.Cpp", false, 3);
    assert_eq!(ft1.name(), "C/C++");
    assert_eq!(ft2.name(), "C/C++");
}

#[test]
fn clean_whitespace_trims_both_ends() {
    assert_eq!(duplo_core::filetype::clean_whitespace("  ab  "), "ab");
    assert_eq!(duplo_core::filetype::clean_whitespace("\tx y\t"), "x y");
}
