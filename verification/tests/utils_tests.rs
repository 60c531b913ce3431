use rust_code_analyzer::utils::{clean_type_name, extract_module_path, is_test_file, parent_path};

#[test]
fn test_extract_module_path() {
    let project_root = "/project";

    assert_eq!(extract_module_path("/project/src/main.rs", project_root), "crate");

    assert_eq!(extract_module_path("/project/src/lib.rs", project_root), "crate");

    assert_eq!(extract_module_path("/project/src/utils/mod.rs", project_root), "crate::utils");

    assert_eq!(extract_module_path("/project/src/parser/ast.rs", project_root), "crate::parser::ast");
}

#[test]
fn test_clean_type_name() {
    assert_eq!(clean_type_name("&str").unwrap(), "str");
    assert_eq!(clean_type_name("&mut String").unwrap(), "String");
    assert_eq!(clean_type_name("Vec<String>").unwrap(), "Vec");
    assert_eq!(clean_type_name("std::collections::HashMap").unwrap(), "HashMap");
    assert_eq!(clean_type_name("'a str").unwrap(), "str");
}

#[test]
fn test_is_test_file() {
    assert!(is_test_file("src/tests/mod.rs"));
    assert!(is_test_file("tests/integration.rs"));
    assert!(is_test_file("src/lib_test.rs"));
    assert!(!is_test_file("src/lib.rs"));
    assert!(!is_test_file("src/parser.rs"));
}

#[test]
fn parent_of_paths() {
    assert_eq!(parent_path("/a/b/Cargo.toml").unwrap(), "/a/b");
    assert_eq!(parent_path("/Cargo.toml").unwrap(), "/");
    assert_eq!(parent_path("Cargo.toml").unwrap(), "");
    assert_eq!(parent_path("./crate/Cargo.toml").unwrap(), "./crate");
    assert!(parent_path("/").is_none());
    assert!(parent_path("").is_none());
}
