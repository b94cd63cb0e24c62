use universal_launcher::icons::{app_icon_for_lowercase, file_icon_for_lowercase, get_app_icon_name, get_file_icon};

#[test]
fn app_icons() {
    assert_eq!(get_app_icon_name("Firefox"), "🦊");
    assert_eq!(get_app_icon_name("google-chrome"), "🌐");
    assert_eq!(get_app_icon_name("org.gnome.Terminal"), "💻");
    assert_eq!(get_app_icon_name("VSCode"), "📝");
    assert_eq!(get_app_icon_name("org.gnome.Nautilus"), "📁");
    assert_eq!(get_app_icon_name("preferences-system"), "⚙️");
    assert_eq!(get_app_icon_name("thunderbird"), "📧");
    assert_eq!(get_app_icon_name("Spotify"), "🎵");
    assert_eq!(get_app_icon_name("vlc"), "🎬");
    assert_eq!(get_app_icon_name("GIMP"), "🖼️");
    assert_eq!(get_app_icon_name("discord"), "💬");
    assert_eq!(get_app_icon_name("steam"), "🎮");
    assert_eq!(get_app_icon_name("transmission-gtk"), "📥");
    assert_eq!(get_app_icon_name("calendar"), "📅");
    assert_eq!(get_app_icon_name("libreoffice-writer"), "📃");
    assert_eq!(get_app_icon_name("zzz"), "📱");
    assert_eq!(get_app_icon_name("calculator"), "🔢");
    // earlier rules win: "browser" before "files"
    assert_eq!(get_app_icon_name("files-browser"), "🦊");
    // the lowercase form decides: "CODE" becomes "code"
    assert_eq!(app_icon_for_lowercase("CODE"), "📱");
    assert_eq!(get_app_icon_name("CODE"), "📝");
}

#[test]
fn file_icons() {
    assert_eq!(get_file_icon(Some("PDF")), "📕");
    assert_eq!(get_file_icon(Some("jpeg")), "🖼️");
    assert_eq!(get_file_icon(Some("FLAC")), "🎵");
    assert_eq!(get_file_icon(Some("mkv")), "🎬");
    assert_eq!(get_file_icon(Some("7z")), "📦");
    assert_eq!(get_file_icon(Some("md")), "📝");
    assert_eq!(get_file_icon(Some("docx")), "📃");
    assert_eq!(get_file_icon(Some("csv")), "📊");
    assert_eq!(get_file_icon(Some("json")), "💻");
    assert_eq!(get_file_icon(Some("rs")), "⚡");
    assert_eq!(get_file_icon(Some("otf")), "🔤");
    assert_eq!(get_file_icon(Some("iso")), "💿");
    assert_eq!(get_file_icon(Some("AppImage")), "📥");
    assert_eq!(get_file_icon(Some("xyz")), "📁");
    assert_eq!(get_file_icon(None), "📁");
    assert_eq!(file_icon_for_lowercase(Some("PDF")), "📁");
}
