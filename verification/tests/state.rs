use universal_launcher::desktop::AppInfo;
use universal_launcher::index::KeyedIndex;
use universal_launcher::state::{FileEntry, LauncherState};

fn app(name: &str) -> AppInfo {
    AppInfo { name: name.to_string(), path: format!("/apps/{}.desktop", name), icon: name.to_lowercase(), command: name.to_lowercase() }
}

#[test]
fn index_reads_back_what_was_stored() {
    let mut idx: KeyedIndex<FileEntry> = KeyedIndex::new();
    idx.insert("a".to_string(), FileEntry { path: "/a".to_string(), extension: None });
    idx.insert("b".to_string(), FileEntry { path: "/b".to_string(), extension: Some("txt".to_string()) });
    idx.insert("a".to_string(), FileEntry { path: "/a2".to_string(), extension: None });
    assert_eq!(idx.len(), 2);
    assert_eq!(idx.get("a").unwrap().path, "/a2");
    assert_eq!(idx.get("b").unwrap().path, "/b");
    assert!(idx.get("c").is_none());
    assert_eq!(idx.entry(0).0, "a");
    assert_eq!(idx.entry(1).0, "b");
}

#[test]
fn apps_are_keyed_by_lowercase_name() {
    let mut st = LauncherState::new();
    st.index_app(app("Firefox"));
    st.index_app(app("GIMP"));
    st.index_app(app("FIREFOX"));
    assert_eq!(st.get_index_stats(), (2, 0));
    assert_eq!(st.apps.get("firefox").unwrap().name, "FIREFOX");
    assert_eq!(st.apps.get("gimp").unwrap().name, "GIMP");
}

#[test]
fn hidden_files_are_skipped() {
    let mut st = LauncherState::new();
    st.index_file(".bashrc", FileEntry { path: "/h/.bashrc".to_string(), extension: None });
    st.index_file("Report.PDF", FileEntry { path: "/h/Report.PDF".to_string(), extension: Some("PDF".to_string()) });
    assert_eq!(st.get_index_stats(), (0, 1));
    assert_eq!(st.files.get("report.pdf").unwrap().path, "/h/Report.PDF");
}

#[test]
fn recents_are_recorded() {
    let mut st = LauncherState::new();
    st.record_recent("Firefox".to_string());
    st.record_recent("GIMP".to_string());
    assert_eq!(st.recents, vec!["Firefox".to_string(), "GIMP".to_string()]);
}
