use dirsync::scanner::{filter_source_files, is_source_file};
use dirsync::text::str_eq;

fn types(v: &[&str]) -> Vec<String> {
    v.iter().map(|s| s.to_string()).collect()
}

#[test]
fn extension_filtering() {
    let paths = vec!["a.py".to_string(), "b.txt".to_string(), "c.py".to_string()];
    let accepted = types(&["py"]);
    let result = filter_source_files(&paths, &accepted);
    assert_eq!(result, vec!["a.py".to_string(), "c.py".to_string()]);
}

#[test]
fn accepts_matching_extension() {
    assert!(is_source_file("a.py", &types(&["py"])));
    assert!(is_source_file("src/x/y.rs", &types(&["rs", "py"])));
}

#[test]
fn rejects_other_extension() {
    assert!(!is_source_file("b.txt", &types(&["py"])));
}

#[test]
fn rejects_no_extension() {
    assert!(!is_source_file("Makefile", &types(&["py"])));
    assert!(!is_source_file("dir.with.dots/plain", &types(&["py", "dots"])));
}

#[test]
fn hidden_file_has_no_extension() {
    assert!(!is_source_file(".gitignore", &types(&["gitignore"])));
    assert!(!is_source_file("dir/.hidden", &types(&["hidden"])));
}

#[test]
fn matching_is_case_sensitive() {
    assert!(!is_source_file("A.PY", &types(&["py"])));
    assert!(is_source_file("A.py", &types(&["py"])));
}

#[test]
fn last_extension_wins() {
    assert!(is_source_file("a.tar.gz", &types(&["gz"])));
    assert!(!is_source_file("a.tar.gz", &types(&["tar"])));
}

#[test]
fn empty_accepted_set_matches_nothing() {
    assert!(!is_source_file("a.py", &types(&[])));
}

#[test]
fn filter_keeps_input_order_and_duplicates() {
    let paths = vec![
        "m/a.py".to_string(),
        "m/b.py".to_string(),
        "m/a.py".to_string(),
        "n/c.txt".to_string(),
    ];
    let result = filter_source_files(&paths, &types(&["py"]));
    assert_eq!(
        result,
        vec!["m/a.py".to_string(), "m/b.py".to_string(), "m/a.py".to_string()]
    );
}

#[test]
fn str_eq_agrees_with_equality() {
    assert!(str_eq("abc", "abc"));
    assert!(!str_eq("abc", "abd"));
    assert!(!str_eq("abc", "ab"));
    assert!(str_eq("", ""));
    assert!(str_eq("déjà", "déjà"));
    assert!(!str_eq("déjà", "deja"));
}
