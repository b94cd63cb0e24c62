use universal_launcher::desktop::AppInfo;
use universal_launcher::search::{get_recent_files, search, search_with, SearchHit, SearchResult};
use universal_launcher::state::{FileEntry, LauncherState};
use universal_launcher::commands::{system_command_plan, Os};

fn state() -> LauncherState {
    let mut st = LauncherState::new();
    for (n, icon) in [("Firefox", "firefox"), ("GIMP", "gimp"), ("Terminal", "utilities-terminal"), ("Calculator", "org.gnome.Calculator")] {
        st.index_app(AppInfo { name: n.to_string(), path: format!("/usr/share/applications/{}.desktop", n.to_lowercase()), icon: icon.to_string(), command: n.to_lowercase() });
    }
    st.index_file("firefox-manual.pdf", FileEntry { path: "/home/u/Documents/firefox-manual.pdf".to_string(), extension: Some("pdf".to_string()) });
    st.index_file("notes.txt", FileEntry { path: "/home/u/notes.txt".to_string(), extension: Some("txt".to_string()) });
    st
}

fn ready(h: &SearchHit) -> Option<&SearchResult> {
    match h {
        SearchHit::Ready(r) => Some(r),
        SearchHit::File { .. } => None,
    }
}

#[test]
fn empty_query_finds_nothing() {
    let st = state();
    assert!(search(&st, "").is_empty());
}

#[test]
fn calculator_comes_first() {
    let st = state();
    let hits = search(&st, "2+2");
    let first = ready(&hits[0]).unwrap();
    assert_eq!(first.name, "2+2 = 4");
    assert_eq!(first.desc, "Calculator");
    assert_eq!(first.result_type, "calculator");
    assert_eq!(first.icon, "🧮");
    let web = ready(&hits[1]).unwrap();
    assert_eq!(web.name, "Search web for \"2+2\"");
    assert_eq!(web.path, "2+2");
    let yt = ready(&hits[2]).unwrap();
    assert_eq!(yt.result_type, "youtube_search");
}

#[test]
fn command_palette() {
    let st = state();
    let hits = search(&st, ">  ls -la ");
    let first = ready(&hits[0]).unwrap();
    assert_eq!(first.name, "Run: ls -la");
    assert_eq!(first.path, "ls -la");
    assert_eq!(first.result_type, "command");
    let hits = search(&st, ">   ");
    assert_eq!(ready(&hits[0]).unwrap().result_type, "web_search");
}

#[test]
fn finds_apps_files_and_system_commands() {
    let st = state();
    let hits = search(&st, "firefox");
    let apps: Vec<&SearchResult> = hits.iter().filter_map(ready).filter(|r| r.result_type == "app").collect();
    assert_eq!(apps.len(), 1);
    assert_eq!(apps[0].name, "Firefox");
    assert_eq!(apps[0].icon, "🦊");
    assert_eq!(apps[0].desc, "Application");
    let files: Vec<&String> = hits.iter().filter_map(|h| match h { SearchHit::File { name, .. } => Some(name), _ => None }).collect();
    assert_eq!(files, vec!["firefox-manual.pdf"]);
    let hits = search(&st, "Terminal");
    let sys: Vec<&SearchResult> = hits.iter().filter_map(ready).filter(|r| r.result_type == "system").collect();
    assert_eq!(sys.len(), 1);
    assert_eq!(sys[0].name, "terminal");
    assert_eq!(sys[0].desc, "Open Terminal");
}

#[test]
fn at_most_twenty_hits() {
    let mut st = LauncherState::new();
    for i in 0..40 {
        st.index_file(&format!("report{}.txt", i), FileEntry { path: format!("/r{}", i), extension: Some("txt".to_string()) });
    }
    let hits = search(&st, "report");
    assert_eq!(hits.len(), 20);
}

#[test]
fn recents_in_search_and_recent_files() {
    let mut st = state();
    st.record_recent("GIMP".to_string());
    st.record_recent("Unknown App".to_string());
    st.record_recent("Firefox".to_string());
    let hits = search_with(&st, "gimp", None);
    let rec: Vec<&SearchResult> = hits.iter().filter_map(ready).filter(|r| r.result_type == "recent").collect();
    assert_eq!(rec.len(), 1);
    assert_eq!(rec[0].name, "GIMP");
    assert_eq!(rec[0].desc, "Recently used");
    let recent = get_recent_files(&st);
    assert_eq!(recent.len(), 2);
    assert_eq!(recent[0].name, "Firefox");
    assert_eq!(recent[0].desc, "Recently opened");
    assert_eq!(recent[0].result_type, "recent");
    assert_eq!(recent[1].name, "GIMP");
    assert_eq!(recent[1].icon, "🖼️");
}

#[test]
fn search_with_given_calculation() {
    let st = state();
    let hits = search_with(&st, "x", Some("9".to_string()));
    assert_eq!(ready(&hits[0]).unwrap().name, "x = 9");
}

#[test]
fn web_search_survives_the_cut() {
    let mut st = LauncherState::new();
    for i in 0..40 {
        st.index_file(&format!("report{}.txt", i), FileEntry { path: format!("/r{}", i), extension: None });
    }
    let hits = search(&st, "report");
    assert!(hits.iter().filter_map(ready).any(|r| r.result_type == "web_search" && r.path == "report"));
}

#[test]
fn offered_system_commands_run() {
    let st = state();
    for q in ["lock", "shutdown", "volumeup", "brightnessdown", "terminal", "calculator", "screenshot"] {
        let hits = search(&st, q);
        let system: Vec<&SearchResult> = hits.iter().filter_map(ready).filter(|r| r.result_type == "system").collect();
        assert!(!system.is_empty(), "no system command for {}", q);
        for r in system {
            assert!(system_command_plan(&r.path, Os::Linux).is_ok());
            assert!(system_command_plan(&r.path, Os::Windows).is_ok());
        }
    }
}

#[test]
fn calculator_line_follows_calculate() {
    let st = state();
    let hits = search(&st, "3 * 4");
    assert_eq!(ready(&hits[0]).unwrap().name, "3 * 4 = 12");
    let hits = search(&st, "shl(1,2)");
    assert_eq!(ready(&hits[0]).unwrap().name, "shl(1,2) = 4");
    let hits = search(&st, "shl(1,99)");
    assert_eq!(ready(&hits[0]).unwrap().result_type, "web_search");
}
