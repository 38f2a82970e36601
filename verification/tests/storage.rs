use nonempty::NonEmpty;
use rx::storage::{FileStatus, FileStorage};

fn range(paths: &[&str]) -> FileStorage {
    let v: Vec<String> = paths.iter().map(|p| p.to_string()).collect();
    FileStorage::Range(NonEmpty::from_vec(v).unwrap())
}

fn single(p: &str) -> FileStorage {
    FileStorage::Single(p.to_string())
}

#[test]
fn single_label_is_the_path() {
    assert_eq!(single("dir/sprite.png").to_string(), "dir/sprite.png");
    assert_eq!(single("dir/sprite.png").try_to_string(), Some("dir/sprite.png".to_string()));
}

#[test]
fn range_label_with_shared_parent() {
    let s = range(&["dir/a.png", "dir/b.png", "dir/c.png"]);
    assert_eq!(s.to_string(), "dir/a .. c.png");
}

#[test]
fn range_label_of_relative_files_has_empty_parent() {
    let s = range(&["a.png", "b.png"]);
    assert_eq!(s.to_string(), "/a .. b.png");
}

#[test]
fn range_label_with_other_parents_is_a_star() {
    let s = range(&["x/a.png", "y/b.png"]);
    assert_eq!(s.to_string(), "*");
}

#[test]
fn range_label_compares_parents_as_paths() {
    let s = range(&["dir/a.png", "dir//b.png"]);
    assert_eq!(s.to_string(), "dir/a .. b.png");
}

#[test]
fn range_label_without_parent() {
    // The root has no parent and no file stem: no label can be written.
    let s = range(&["/"]);
    assert_eq!(s.try_to_string(), None);
}

#[test]
fn range_label_without_file_name() {
    let s = range(&["dir/a.png", "dir/.."]);
    assert_eq!(s.try_to_string(), None);
}

#[test]
fn contains_compares_paths() {
    assert!(single("a/b.png").contains("a//b.png"));
    assert!(!single("a/b.png").contains("a/c.png"));
    let s = range(&["x/a.png", "x/b.png"]);
    assert!(s.contains("x/b.png"));
    assert!(s.contains("x/a.png"));
    assert!(!s.contains("x/c.png"));
}

#[test]
fn storage_equality() {
    assert!(single("a/b") == single("a//b"));
    assert!(single("a/b") != single("a/c"));
    assert!(range(&["a", "b"]) == range(&["a", "b"]));
    assert!(range(&["a", "b"]) != range(&["a"]));
    assert!(range(&["a", "b"]) != range(&["a", "c"]));
    assert!(range(&["a"]) != single("a"));
}

#[test]
fn storage_from_text_and_clone() {
    let s: FileStorage = FileStorage::from("x.png".to_string());
    assert!(s == single("x.png"));
    let r = range(&["a", "b"]);
    assert!(r.clone() == r);
}

#[test]
fn status_text() {
    assert_eq!(FileStatus::NoFile.to_string(), "");
    assert_eq!(FileStatus::Saved(single("a.png")).to_string(), "a.png");
    assert_eq!(FileStatus::New(single("a.png")).to_string(), "a.png [new]");
    assert_eq!(FileStatus::Modified(single("a.png")).to_string(), "a.png [modified]");
    assert_eq!(
        FileStatus::Modified(range(&["d/a.png", "d/b.png"])).to_string(),
        "d/a .. b.png [modified]"
    );
    assert_eq!(FileStatus::New(range(&["/"])).try_to_string(), None);
    assert_eq!(FileStatus::NoFile.try_to_string(), Some(String::new()));
}
