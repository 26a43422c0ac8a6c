use tale_ndjson::errors::{edit_distance, find_similar_files, is_similar, FileError};

#[test]
fn test_edit_distance() {
    assert_eq!(edit_distance("hello", "hello"), 0);
    assert_eq!(edit_distance("hello", "helo"), 1);
    assert_eq!(edit_distance("hello", "help"), 2);
    assert_eq!(edit_distance("file.txt", "file.log"), 3);
}

#[test]
fn test_similarity() {
    assert!(is_similar("file.txt", "file.log"));
    assert!(is_similar("config.json", "config.jsn"));
    assert!(!is_similar("file.txt", "completely_different.py"));
}

#[test]
fn test_file_error_creation() {
    let path = "/nonexistent/file.txt".to_string();
    let similar = vec!["/nonexistent/file.log".to_string()];

    let error = FileError::not_found_with_suggestions(path.clone(), similar);

    match error {
        FileError::NotFound { path: error_path, similar_files: suggestions } => {
            assert_eq!(error_path, path);
            assert!(!suggestions.is_empty());
            assert_eq!(suggestions.len(), 1);
        }
        _ => panic!("Wrong error type created"),
    }
}

fn entry(name: &str) -> (String, String) {
    (name.to_string(), format!("/logs/{}", name))
}

#[test]
fn similar_files_are_nearest_first_and_at_most_three() {
    let entries = vec![
        entry("App.lg"),
        entry("apq.lgg"),
        entry("app.lg"),
        entry("app.log"),
        entry("APP.LOG"),
        entry("ap.log"),
        entry("zzz"),
    ];
    let similar = find_similar_files("app.log", &entries);
    assert_eq!(similar, vec!["/logs/app.lg".to_string(), "/logs/ap.log".to_string(), "/logs/App.lg".to_string()]);
}

#[test]
fn similar_files_keep_listing_order_among_equals() {
    let entries = vec![entry("b.txt"), entry("a.txt"), entry("nothing-alike.md")];
    let similar = find_similar_files("c.txt", &entries);
    assert_eq!(similar, vec!["/logs/b.txt".to_string(), "/logs/a.txt".to_string()]);
}

#[test]
fn similar_files_of_an_empty_directory() {
    assert!(find_similar_files("c.txt", &Vec::new()).is_empty());
}

#[test]
fn edit_distance_is_symmetric_zero_for_equals_and_bounded() {
    assert_eq!(edit_distance("help", "hello"), edit_distance("hello", "help"));
    assert_eq!(edit_distance("kitten", "sitting"), edit_distance("sitting", "kitten"));
    assert_eq!(edit_distance("same", "same"), 0);
    assert!(edit_distance("same", "sane") > 0);
    assert!(edit_distance("abc", "wxyz") <= 4);
    assert_eq!(edit_distance("", "abc"), 3);
}
