use universal_launcher::desktop::{exe_app_entry, is_desktop_extension, is_exe_extension, parse_desktop_entry};

#[test]
fn parses_desktop_entry() {
    let content = "[Desktop Entry]\nName=Firefox Web Browser\nIcon=firefox\nExec=firefox %u\nType=Application\n";
    let app = parse_desktop_entry(content, "/usr/share/applications/firefox.desktop").unwrap();
    assert_eq!(app.name, "Firefox Web Browser");
    assert_eq!(app.icon, "firefox");
    assert_eq!(app.command, "firefox");
    assert_eq!(app.path, "/usr/share/applications/firefox.desktop");
}

#[test]
fn last_field_wins_and_codes_removed() {
    let content = "Name=First\nName=  Second  \nExec= gimp-2.10 %U %F --new  \nIcon=unknown\r\n";
    let app = parse_desktop_entry(content, "p").unwrap();
    assert_eq!(app.name, "Second");
    assert_eq!(app.command, "gimp-2.10   --new");
    assert_eq!(app.icon, "second");
}

#[test]
fn missing_icon_uses_lowercase_name() {
    let app = parse_desktop_entry("Name=GIMP\nExec=gimp", "p").unwrap();
    assert_eq!(app.icon, "gimp");
}

#[test]
fn nameless_entry_is_rejected() {
    assert!(parse_desktop_entry("Exec=foo\nIcon=bar", "p").is_none());
    assert!(parse_desktop_entry("Name=\nExec=foo", "p").is_none());
    assert!(parse_desktop_entry("", "p").is_none());
}

#[test]
fn field_codes_single_pass() {
    let app = parse_desktop_entry("Name=X\nExec=run %%uu %k%m", "p").unwrap();
    assert_eq!(app.command, "run %%uu %k%m".replace("%u", "").replace("%k", "").replace("%m", "").trim());
}

#[test]
fn extensions() {
    assert!(is_desktop_extension(Some("desktop")));
    assert!(!is_desktop_extension(Some("Desktop")));
    assert!(!is_desktop_extension(None));
    assert!(is_exe_extension(Some("exe")));
    assert!(!is_exe_extension(Some("dll")));
}

#[test]
fn exe_entries() {
    let app = exe_app_entry("notepad++", "C:\\Program Files\\Notepad++\\notepad++.exe").unwrap();
    assert_eq!(app.name, "notepad++");
    assert_eq!(app.icon, "📱");
    assert_eq!(app.command, "C:\\Program Files\\Notepad++\\notepad++.exe");
    assert!(exe_app_entry("uninstall", "x").is_none());
    assert!(exe_app_entry("setup-installer", "x").is_none());
    assert!(exe_app_entry("", "x").is_none());
    assert!(exe_app_entry("Uninstall", "x").is_some());
}
