use universal_launcher::paths::{file_index_dirs, linux_app_dirs, resolve_home, web_search_url, windows_app_dirs, youtube_search_url};

#[test]
fn homes() {
    assert_eq!(resolve_home(Some("/home/a".to_string()), Some("C:\\U".to_string()), true), "/home/a");
    assert_eq!(resolve_home(None, Some("C:\\U".to_string()), true), "C:\\U");
    assert_eq!(resolve_home(None, None, true), "/home");
    assert_eq!(resolve_home(None, None, false), "C:\\Users");
}

#[test]
fn index_dirs() {
    let d = file_index_dirs("/home/a", true);
    assert_eq!(d.len(), 16);
    assert_eq!(d[0], "/home/a/Masaüstü");
    assert_eq!(d[2], "/home/a/İndirilenler");
    assert_eq!(d[15], "/home/a/Musik");
    let w = file_index_dirs("C:\\Users\\b", false);
    assert_eq!(w, vec!["C:\\Users\\b\\Desktop", "C:\\Users\\b\\Documents", "C:\\Users\\b\\Downloads", "C:\\Users\\b\\Pictures", "C:\\Users\\b\\Music", "C:\\Users\\b\\Videos"]);
}

#[test]
fn app_dirs() {
    assert_eq!(linux_app_dirs(None), vec!["/usr/share/applications", "/usr/local/share/applications"]);
    assert_eq!(linux_app_dirs(Some("/home/a")).len(), 5);
    assert_eq!(linux_app_dirs(Some("/home/a"))[3], "/home/a/.local/share/flatpak/exports/share/applications");
    assert_eq!(windows_app_dirs(Some("C:\\Users\\bob"))[2], "C:\\Users\\C:\\Users\\bob\\AppData\\Local\\Programs");
    assert_eq!(windows_app_dirs(None)[2], "C:\\Users\\C:\\Users\\Default\\AppData\\Local\\Programs");
    assert_eq!(windows_app_dirs(None)[0], "C:\\Program Files");
}

#[test]
fn search_urls() {
    assert_eq!(web_search_url("rust verus  proof"), "https://www.google.com/search?q=rust+verus++proof");
    assert_eq!(youtube_search_url("lofi"), "https://www.youtube.com/results?search_query=lofi");
    assert!(!web_search_url(" a b ").contains(' '));
}
