use lan_share::entry::FileEntry;
use lan_share::history::SelectedMap;
use lan_share::nav::{parent_dir, DirInfo, PathType};

fn file(path: &str) -> FileEntry {
    FileEntry::new(path.to_string(), false)
}

fn dir(path: &str) -> FileEntry {
    FileEntry::new(path.to_string(), true)
}

fn home_listing() -> Vec<FileEntry> {
    vec![dir("/home/v"), dir("/home/u")]
}

fn user_listing() -> Vec<FileEntry> {
    vec![file("/home/u/x.txt"), dir("/home/u/music"), dir("/home/u/docs")]
}

#[test]
fn new_builds_parent_and_current() {
    let nav = DirInfo::new("/home/u".to_string(), home_listing(), user_listing());
    let parent = nav.parent.as_ref().unwrap();
    assert_eq!(parent.path, "/home");
    assert_eq!(parent.path_type, PathType::Parent);
    assert_eq!(parent.selected, Some(0));
    assert_eq!(nav.current.path, "/home/u");
    assert_eq!(nav.current.path_type, PathType::Current);
    let names: Vec<String> = nav.current.files.iter().map(|e| e.name.clone()).collect();
    assert_eq!(names, vec!["docs", "music", "x.txt"]);
    assert_eq!(nav.current.selected, Some(0));
    assert!(nav.child.is_none());
    assert_eq!(nav.child_target(), Some("/home/u/docs".to_string()));
}

#[test]
fn root_has_no_parent_pane() {
    let nav = DirInfo::new("/".to_string(), vec![], vec![dir("/home"), dir("/tmp")]);
    assert!(nav.parent.is_none());
    assert_eq!(nav.parent_target(), None);
    assert_eq!(parent_dir(&"/".to_string()), None);
    assert_eq!(parent_dir(&"/home/u".to_string()), Some("/home".to_string()));
}

#[test]
fn empty_listing_selects_nothing() {
    let nav = DirInfo::new("/empty".to_string(), vec![dir("/empty")], vec![]);
    assert_eq!(nav.current.selected, None);
    assert_eq!(nav.child_target(), None);
    assert!(nav.selected_entry().is_none());
}

#[test]
fn move_selection_wraps_both_ways() {
    let mut nav = DirInfo::new("/home/u".to_string(), home_listing(), user_listing());
    assert!(nav.set_current_list_state_prev());
    assert_eq!(nav.current.selected, Some(2));
    assert!(nav.set_current_list_state_next());
    assert_eq!(nav.current.selected, Some(0));
    assert!(nav.set_current_list_state_next());
    assert_eq!(nav.current.selected, Some(1));
    assert_eq!(nav.selected_map.get(&"/home/u".to_string()), Some(1));
}

#[test]
fn move_selection_on_short_lists_is_no_op() {
    let mut one = DirInfo::new("/one".to_string(), vec![], vec![file("/one/a")]);
    assert!(!one.set_current_list_state_next());
    assert!(!one.set_current_list_state_prev());
    assert_eq!(one.current.selected, Some(0));
    let mut none = DirInfo::new("/none".to_string(), vec![], vec![]);
    assert!(!none.set_current_list_state_next());
    assert!(!none.set_current_list_state_prev());
    assert_eq!(none.current.selected, None);
}

#[test]
fn child_pane_follows_selected_directory() {
    let mut nav = DirInfo::new("/home/u".to_string(), home_listing(), user_listing());
    nav.set_child(vec![file("/home/u/docs/r.pdf")]);
    let child = nav.child.as_ref().unwrap();
    assert_eq!(child.path, "/home/u/docs");
    assert_eq!(child.path_type, PathType::Child);
    assert_eq!(child.selected, Some(0));
    nav.set_current_list_state_prev();
    assert!(nav.child.is_none());
    assert_eq!(nav.child_target(), None);
    nav.set_child(vec![]);
    assert!(nav.child.is_none());
}

#[test]
fn enter_child_then_parent_restores_selection() {
    let mut nav = DirInfo::new("/home/u".to_string(), home_listing(), user_listing());
    nav.set_current_list_state_next();
    assert_eq!(nav.current.selected, Some(1));
    assert!(nav.set_current_to_child(user_listing(), vec![file("/home/u/music/s.ogg")]));
    assert_eq!(nav.current.path, "/home/u/music");
    assert_eq!(nav.parent.as_ref().unwrap().selected, Some(1));
    assert_eq!(nav.current.selected, Some(0));
    assert!(nav.set_current_to_parent(home_listing(), user_listing()));
    assert_eq!(nav.current.path, "/home/u");
    assert_eq!(nav.current.selected, Some(1));
    assert_eq!(nav.parent.as_ref().unwrap().path, "/home");
}

#[test]
fn enter_child_on_file_does_nothing() {
    let mut nav = DirInfo::new("/home/u".to_string(), home_listing(), user_listing());
    nav.set_current_list_state_prev();
    assert_eq!(nav.selected_entry().unwrap().name, "x.txt");
    assert!(!nav.set_current_to_child(vec![], vec![]));
    assert_eq!(nav.current.path, "/home/u");
}

#[test]
fn enter_parent_at_root_does_nothing() {
    let mut nav = DirInfo::new("/".to_string(), vec![], vec![dir("/tmp")]);
    assert!(!nav.set_current_to_parent(vec![], vec![]));
    assert_eq!(nav.current.path, "/");
}

#[test]
fn remembered_index_beyond_shrunk_listing_moves_to_last() {
    let mut nav = DirInfo::new("/home/u".to_string(), home_listing(), user_listing());
    nav.set_current_list_state_prev();
    assert_eq!(nav.current.selected, Some(2));
    nav.set_current_dir("/home".to_string(), vec![dir("/home")], home_listing());
    nav.set_current_dir("/home/u".to_string(), home_listing(), vec![file("/home/u/only")]);
    assert_eq!(nav.current.selected, Some(0));
}

#[test]
fn selected_map_records_and_replaces() {
    let mut m = SelectedMap::new();
    assert_eq!(m.get(&"/a".to_string()), None);
    m.insert("/a".to_string(), 3);
    m.insert("/b".to_string(), 1);
    m.insert("/a".to_string(), 5);
    assert_eq!(m.get(&"/a".to_string()), Some(5));
    assert_eq!(m.get(&"/b".to_string()), Some(1));
    assert_eq!(m.items.len(), 2);
}
