use lan_share::entry::{entry_precedes, path_last_n, sort_files, FileEntry};

fn file(path: &str) -> FileEntry {
    FileEntry::new(path.to_string(), false)
}

fn dir(path: &str) -> FileEntry {
    FileEntry::new(path.to_string(), true)
}

fn names(v: &[FileEntry]) -> Vec<String> {
    v.iter().map(|e| e.name.clone()).collect()
}

#[test]
fn entry_name_is_last_component() {
    assert_eq!(file("/tmp/a.txt").name, "a.txt");
    assert_eq!(dir("/home/user/docs").name, "docs");
    assert_eq!(dir("/").name, "");
}

#[test]
fn sort_puts_directories_first_then_names() {
    let mut v = vec![
        file("/d/b.txt"),
        dir("/d/zeta"),
        file("/d/A.txt"),
        dir("/d/alpha"),
        file("/d/a.txt"),
    ];
    sort_files(&mut v);
    assert_eq!(names(&v), vec!["alpha", "zeta", "A.txt", "a.txt", "b.txt"]);
    assert!(v[0].is_dir && v[1].is_dir && !v[2].is_dir);
}

#[test]
fn sort_is_case_sensitive_byte_order() {
    let mut v = vec![file("/d/b"), file("/d/B"), file("/d/a"), file("/d/Z")];
    sort_files(&mut v);
    assert_eq!(names(&v), vec!["B", "Z", "a", "b"]);
}

#[test]
fn sort_empty_and_single() {
    let mut v: Vec<FileEntry> = vec![];
    sort_files(&mut v);
    assert!(v.is_empty());
    let mut w = vec![file("/x")];
    sort_files(&mut w);
    assert_eq!(names(&w), vec!["x"]);
}

#[test]
fn sort_keeps_order_of_equal_names() {
    let mut v = vec![file("/b/x.txt"), file("/a/x.txt"), file("/c/w.txt")];
    sort_files(&mut v);
    let paths: Vec<String> = v.iter().map(|e| e.path.clone()).collect();
    assert_eq!(paths, vec!["/c/w.txt", "/b/x.txt", "/a/x.txt"]);
}

#[test]
fn prefix_name_comes_first() {
    assert!(entry_precedes(&file("/d/ab"), &file("/d/abc")));
    assert!(!entry_precedes(&file("/d/abc"), &file("/d/ab")));
    assert!(!entry_precedes(&file("/d/ab"), &file("/d/ab")));
    assert!(entry_precedes(&dir("/d/z"), &file("/d/a")));
}

#[test]
fn display_name_last_components() {
    assert_eq!(path_last_n(&file("/tmp/a.txt"), 2), "tmp/a.txt");
    assert_eq!(path_last_n(&file("/tmp/a.txt"), 1), "a.txt");
    assert_eq!(path_last_n(&dir("/home/user/docs"), 2), "user/docs/");
    assert_eq!(path_last_n(&dir("/home/user/docs"), 0), "/");
}
