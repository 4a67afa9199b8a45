use lan_share::entry::FileEntry;
use lan_share::share::{ShareInfo, ShareSet};
use lan_share::web::{download_allowed, file_list};

fn file(path: &str) -> FileEntry {
    FileEntry::new(path.to_string(), false)
}

fn paths(s: &ShareSet) -> Vec<String> {
    s.entries.iter().map(|e| e.path.clone()).collect()
}

#[test]
fn add_remove_download_scenario() {
    let mut shares = ShareSet::new();
    let mut cursor = ShareInfo::new(&shares);
    assert_eq!(cursor.selected, None);

    let changes = [cursor.add(&mut shares, file("/tmp/a.txt"))];
    assert_eq!(changes.iter().filter(|c| **c).count(), 1);
    assert_eq!(paths(&shares), vec!["/tmp/a.txt"]);
    let listing = file_list(&shares);
    assert_eq!(listing.file_arr.len(), 1);
    assert_eq!(listing.file_arr[0].name, "a.txt");
    assert_eq!(listing.file_arr[0].path, "/tmp/a.txt");
    assert!(listing.is_hx_swap_oob);

    assert!(cursor.remove(&mut shares));
    assert!(shares.entries.is_empty());
    assert_eq!(cursor.selected, None);
    assert_eq!(file_list(&shares).file_arr.len(), 0);

    assert!(!download_allowed(&shares, &"/tmp/a.txt".to_string()));
}

#[test]
fn add_twice_changes_once() {
    let mut shares = ShareSet::new();
    let mut cursor = ShareInfo::new(&shares);
    assert!(cursor.add(&mut shares, file("/tmp/a.txt")));
    let once = paths(&shares);
    assert!(!cursor.add(&mut shares, file("/tmp/a.txt")));
    assert_eq!(paths(&shares), once);
    assert_eq!(cursor.selected, Some(0));
}

#[test]
fn add_directory_is_refused() {
    let mut shares = ShareSet::new();
    let mut cursor = ShareInfo::new(&shares);
    assert!(!cursor.add(&mut shares, FileEntry::new("/tmp".to_string(), true)));
    assert!(shares.entries.is_empty());
    assert_eq!(cursor.selected, None);
}

#[test]
fn added_files_stay_sorted_by_name() {
    let mut shares = ShareSet::new();
    let mut cursor = ShareInfo::new(&shares);
    assert!(cursor.add(&mut shares, file("/x/c.txt")));
    assert!(cursor.add(&mut shares, file("/y/a.txt")));
    assert!(cursor.add(&mut shares, file("/z/b.txt")));
    assert_eq!(paths(&shares), vec!["/y/a.txt", "/z/b.txt", "/x/c.txt"]);
}

#[test]
fn remove_last_moves_selection_back() {
    let mut shares = ShareSet::new();
    let mut cursor = ShareInfo::new(&shares);
    cursor.add(&mut shares, file("/a"));
    cursor.add(&mut shares, file("/b"));
    cursor.add(&mut shares, file("/c"));
    cursor.prev(&shares);
    assert_eq!(cursor.selected, Some(2));
    assert!(cursor.remove(&mut shares));
    assert_eq!(paths(&shares), vec!["/a", "/b"]);
    assert_eq!(cursor.selected, Some(1));
}

#[test]
fn remove_middle_keeps_selection() {
    let mut shares = ShareSet::new();
    let mut cursor = ShareInfo::new(&shares);
    cursor.add(&mut shares, file("/a"));
    cursor.add(&mut shares, file("/b"));
    cursor.add(&mut shares, file("/c"));
    cursor.next(&shares);
    assert_eq!(cursor.selected, Some(1));
    assert!(cursor.remove(&mut shares));
    assert_eq!(paths(&shares), vec!["/a", "/c"]);
    assert_eq!(cursor.selected, Some(1));
}

#[test]
fn remove_on_empty_is_no_change() {
    let mut shares = ShareSet::new();
    let mut cursor = ShareInfo::new(&shares);
    assert!(!cursor.remove(&mut shares));
    assert_eq!(cursor.selected, None);
}

#[test]
fn share_cursor_wraps() {
    let mut shares = ShareSet::new();
    let mut cursor = ShareInfo::new(&shares);
    cursor.add(&mut shares, file("/a"));
    cursor.add(&mut shares, file("/b"));
    assert_eq!(cursor.selected, Some(0));
    cursor.prev(&shares);
    assert_eq!(cursor.selected, Some(1));
    cursor.next(&shares);
    assert_eq!(cursor.selected, Some(0));
}

#[test]
fn share_cursor_single_entry_stays() {
    let mut shares = ShareSet::new();
    let mut cursor = ShareInfo::new(&shares);
    cursor.add(&mut shares, file("/a"));
    cursor.next(&shares);
    assert_eq!(cursor.selected, Some(0));
    cursor.prev(&shares);
    assert_eq!(cursor.selected, Some(0));
}

#[test]
fn clear_empties_and_deselects() {
    let mut shares = ShareSet::new();
    let mut cursor = ShareInfo::new(&shares);
    cursor.add(&mut shares, file("/a"));
    cursor.add(&mut shares, file("/b"));
    cursor.clear(&mut shares);
    assert!(shares.entries.is_empty());
    assert_eq!(cursor.selected, None);
    assert_eq!(shares.len(), 0);
}

#[test]
fn download_only_shared_paths() {
    let mut shares = ShareSet::new();
    let mut cursor = ShareInfo::new(&shares);
    cursor.add(&mut shares, file("/srv/x.bin"));
    assert!(download_allowed(&shares, &"/srv/x.bin".to_string()));
    assert!(!download_allowed(&shares, &"/srv/y.bin".to_string()));
    assert!(!download_allowed(&shares, &"/srv".to_string()));
    assert!(shares.contains(&"/srv/x.bin".to_string()));
}

#[test]
fn late_viewer_listing_reflects_every_change() {
    let mut shares = ShareSet::new();
    let mut cursor = ShareInfo::new(&shares);
    cursor.add(&mut shares, file("/m/one.txt"));
    cursor.add(&mut shares, file("/m/two.txt"));
    cursor.add(&mut shares, file("/m/three.txt"));
    cursor.remove(&mut shares);
    let listing = file_list(&shares);
    let names: Vec<String> = listing.file_arr.iter().map(|f| f.name.clone()).collect();
    assert_eq!(names, vec!["three.txt", "two.txt"]);
}
