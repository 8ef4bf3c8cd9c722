use cxt::path_formatter::PathFormatter;

#[test]
fn test_format_path_no_path() {
    let formatter = PathFormatter::new(false, true);
    let path = "/some/path/file.txt".to_string();
    assert_eq!(formatter.format_path(&path, &None, &None), "");
}

#[test]
fn test_format_path_absolute() {
    let formatter = PathFormatter::new(false, false);
    let path = "/some/path/file.txt".to_string();
    let result = formatter.format_path(&path, &None, &None);
    assert!(result.contains("--- File:"));
    assert!(result.contains("file.txt"));
}

#[test]
fn test_format_path_relative() {
    let formatter = PathFormatter::new(true, false);
    let path = "file.txt".to_string();
    let result = formatter.format_path(&path, &None, &Some("/home/user".to_string()));
    assert!(result.contains("--- File:"));
    assert!(result.contains("file.txt"));
}

#[test]
fn format_path_uses_canonical_form() {
    let formatter = PathFormatter::new(false, false);
    let path = "notes/../a.txt".to_string();
    let result = formatter.format_path(&path, &Some("/work/a.txt".to_string()), &None);
    assert_eq!(result, "--- File: /work/a.txt ---\n");
}

#[test]
fn format_path_relative_to_working_directory() {
    let formatter = PathFormatter::new(true, false);
    let path = "/work/src/main.rs".to_string();
    let result = formatter.format_path(&path, &None, &Some("/work".to_string()));
    assert_eq!(result, "--- File: src/main.rs ---\n");
}

#[test]
fn format_path_relative_goes_up() {
    let formatter = PathFormatter::new(true, false);
    let path = "/work/a.txt".to_string();
    let result = formatter.format_path(&path, &None, &Some("/work/sub".to_string()));
    assert_eq!(result, "--- File: ../a.txt ---\n");
}

#[test]
fn format_path_without_working_directory_keeps_path() {
    let formatter = PathFormatter::new(true, false);
    let path = "/work/a.txt".to_string();
    assert_eq!(formatter.format_path(&path, &None, &None), "--- File: /work/a.txt ---\n");
}
