use vstd::prelude::*;

use crate::text::{chars_of, contains_chars, contains_seq, lowercase_of, same_chars, to_lowercase};

verus! {

/// The icon for an application whose icon name, in lowercase, is `lower`: the first rule
/// whose words occur in it decides.
pub open spec fn app_icon_spec(lower: Seq<char>) -> Seq<char> {
    if contains_seq(lower, "firefox"@) || contains_seq(lower, "browser"@) {
        "🦊"@
    } else if contains_seq(lower, "chrome"@) || contains_seq(lower, "chromium"@) {
        "🌐"@
    } else if contains_seq(lower, "terminal"@) || contains_seq(lower, "konsole"@) || contains_seq(lower, "kitty"@) || contains_seq(lower, "alacritty"@) {
        "💻"@
    } else if contains_seq(lower, "code"@) || contains_seq(lower, "vscode"@) {
        "📝"@
    } else if contains_seq(lower, "files"@) || contains_seq(lower, "nautilus"@) || contains_seq(lower, "dolphin"@) || contains_seq(lower, "thunar"@) {
        "📁"@
    } else if contains_seq(lower, "settings"@) || contains_seq(lower, "preferences"@) {
        "⚙️"@
    } else if contains_seq(lower, "calculator"@) {
        "🔢"@
    } else if contains_seq(lower, "mail"@) || contains_seq(lower, "thunderbird"@) || contains_seq(lower, "evolution"@) || contains_seq(lower, "geary"@) {
        "📧"@
    } else if contains_seq(lower, "music"@) || contains_seq(lower, "spotify"@) || contains_seq(lower, "rhythmbox"@) {
        "🎵"@
    } else if contains_seq(lower, "video"@) || contains_seq(lower, "vlc"@) || contains_seq(lower, "mpv"@) {
        "🎬"@
    } else if contains_seq(lower, "image"@) || contains_seq(lower, "gimp"@) || contains_seq(lower, "eog"@) || contains_seq(lower, "gwenview"@) {
        "🖼️"@
    } else if contains_seq(lower, "discord"@) || contains_seq(lower, "telegram"@) || contains_seq(lower, "slack"@) || contains_seq(lower, "signal"@) {
        "💬"@
    } else if contains_seq(lower, "steam"@) {
        "🎮"@
    } else if contains_seq(lower, "torrent"@) || contains_seq(lower, "transmission"@) {
        "📥"@
    } else if contains_seq(lower, "calendar"@) {
        "📅"@
    } else if contains_seq(lower, "pdf"@) || contains_seq(lower, "document"@) || contains_seq(lower, "libreoffice"@) {
        "📃"@
    } else {
        "📱"@
    }
}

/// Whether `word` occurs in `v`.
fn has_word(v: &Vec<char>, word: &str) -> (r: bool)
    ensures
        r == contains_seq(v@, word@),
{
    let w = chars_of(word);
    contains_chars(v, &w)
}

/// The icon for an application whose icon name, already in lowercase, is `lower`.
pub fn app_icon_for_lowercase(lower: &str) -> (r: String)
    ensures
        r@ == app_icon_spec(lower@),
{
    let v = chars_of(lower);
    if has_word(&v, "firefox") || has_word(&v, "browser") {
        return String::from_str("🦊");
    }
    if has_word(&v, "chrome") || has_word(&v, "chromium") {
        return String::from_str("🌐");
    }
    if has_word(&v, "terminal") || has_word(&v, "konsole") || has_word(&v, "kitty") || has_word(&v, "alacritty") {
        return String::from_str("💻");
    }
    if has_word(&v, "code") || has_word(&v, "vscode") {
        return String::from_str("📝");
    }
    if has_word(&v, "files") || has_word(&v, "nautilus") || has_word(&v, "dolphin") || has_word(&v, "thunar") {
        return String::from_str("📁");
    }
    if has_word(&v, "settings") || has_word(&v, "preferences") {
        return String::from_str("⚙️");
    }
    if has_word(&v, "calculator") {
        return String::from_str("🔢");
    }
    if has_word(&v, "mail") || has_word(&v, "thunderbird") || has_word(&v, "evolution") || has_word(&v, "geary") {
        return String::from_str("📧");
    }
    if has_word(&v, "music") || has_word(&v, "spotify") || has_word(&v, "rhythmbox") {
        return String::from_str("🎵");
    }
    if has_word(&v, "video") || has_word(&v, "vlc") || has_word(&v, "mpv") {
        return String::from_str("🎬");
    }
    if has_word(&v, "image") || has_word(&v, "gimp") || has_word(&v, "eog") || has_word(&v, "gwenview") {
        return String::from_str("🖼️");
    }
    if has_word(&v, "discord") || has_word(&v, "telegram") || has_word(&v, "slack") || has_word(&v, "signal") {
        return String::from_str("💬");
    }
    if has_word(&v, "steam") {
        return String::from_str("🎮");
    }
    if has_word(&v, "torrent") || has_word(&v, "transmission") {
        return String::from_str("📥");
    }
    if has_word(&v, "calendar") {
        return String::from_str("📅");
    }
    if has_word(&v, "pdf") || has_word(&v, "document") || has_word(&v, "libreoffice") {
        return String::from_str("📃");
    }
    String::from_str("📱")
}

/// The icon shown for an application whose entry names the icon `icon`: chosen by the
/// words that occur in the lowercase icon name.
pub fn get_app_icon_name(icon: &str) -> (r: String)
    ensures
        r@ == app_icon_spec(lowercase_of(icon@)),
{
    let lower = to_lowercase(icon);
    app_icon_for_lowercase(lower.as_str())
}

/// The icon for a file whose extension, in lowercase, is `ext` (none when the file has
/// no extension that is valid Unicode).
pub open spec fn file_icon_spec(ext: Option<Seq<char>>) -> Seq<char> {
    match ext {
        Some(e) => {
            if e == "pdf"@ {
                "📕"@
            } else if e == "jpg"@ || e == "jpeg"@ || e == "png"@ || e == "gif"@ || e == "bmp"@ || e == "webp"@ || e == "svg"@ {
                "🖼️"@
            } else if e == "mp3"@ || e == "wav"@ || e == "flac"@ || e == "ogg"@ || e == "aac"@ {
                "🎵"@
            } else if e == "mp4"@ || e == "mkv"@ || e == "avi"@ || e == "mov"@ || e == "webm"@ {
                "🎬"@
            } else if e == "zip"@ || e == "tar"@ || e == "gz"@ || e == "rar"@ || e == "7z"@ {
                "📦"@
            } else if e == "txt"@ || e == "md"@ || e == "log"@ || e == "conf"@ {
                "📝"@
            } else if e == "doc"@ || e == "docx"@ {
                "📃"@
            } else if e == "xls"@ || e == "xlsx"@ || e == "csv"@ {
                "📊"@
            } else if e == "html"@ || e == "css"@ || e == "js"@ || e == "ts"@ || e == "json"@ || e == "xml"@ {
                "💻"@
            } else if e == "py"@ || e == "rs"@ || e == "cpp"@ || e == "c"@ || e == "java"@ || e == "go"@ {
                "⚡"@
            } else if e == "ttf"@ || e == "otf"@ {
                "🔤"@
            } else if e == "iso"@ || e == "img"@ || e == "dmg"@ {
                "💿"@
            } else if e == "deb"@ || e == "rpm"@ || e == "appimage"@ {
                "📥"@
            } else {
                "📁"@
            }
        },
        None => "📁"@,
    }
}

/// Whether `v` holds exactly the characters of `word`.
fn is_word(v: &Vec<char>, word: &str) -> (r: bool)
    ensures
        r == (v@ == word@),
{
    let w = chars_of(word);
    same_chars(v, &w)
}

/// The icon for a file whose extension, already in lowercase, is `ext`.
pub fn file_icon_for_lowercase(ext: Option<&str>) -> (r: String)
    ensures
        r@ == file_icon_spec(
            match ext {
                Some(e) => Some(e@),
                None => None,
            },
        ),
{
    match ext {
        Some(e) => {
            let v = chars_of(e);
            if is_word(&v, "pdf") {
                return String::from_str("📕");
            }
            if is_word(&v, "jpg") || is_word(&v, "jpeg") || is_word(&v, "png") || is_word(&v, "gif") || is_word(&v, "bmp") || is_word(&v, "webp") || is_word(&v, "svg") {
                return String::from_str("🖼️");
            }
            if is_word(&v, "mp3") || is_word(&v, "wav") || is_word(&v, "flac") || is_word(&v, "ogg") || is_word(&v, "aac") {
                return String::from_str("🎵");
            }
            if is_word(&v, "mp4") || is_word(&v, "mkv") || is_word(&v, "avi") || is_word(&v, "mov") || is_word(&v, "webm") {
                return String::from_str("🎬");
            }
            if is_word(&v, "zip") || is_word(&v, "tar") || is_word(&v, "gz") || is_word(&v, "rar") || is_word(&v, "7z") {
                return String::from_str("📦");
            }
            if is_word(&v, "txt") || is_word(&v, "md") || is_word(&v, "log") || is_word(&v, "conf") {
                return String::from_str("📝");
            }
            if is_word(&v, "doc") || is_word(&v, "docx") {
                return String::from_str("📃");
            }
            if is_word(&v, "xls") || is_word(&v, "xlsx") || is_word(&v, "csv") {
                return String::from_str("📊");
            }
            if is_word(&v, "html") || is_word(&v, "css") || is_word(&v, "js") || is_word(&v, "ts") || is_word(&v, "json") || is_word(&v, "xml") {
                return String::from_str("💻");
            }
            if is_word(&v, "py") || is_word(&v, "rs") || is_word(&v, "cpp") || is_word(&v, "c") || is_word(&v, "java") || is_word(&v, "go") {
                return String::from_str("⚡");
            }
            if is_word(&v, "ttf") || is_word(&v, "otf") {
                return String::from_str("🔤");
            }
            if is_word(&v, "iso") || is_word(&v, "img") || is_word(&v, "dmg") {
                return String::from_str("💿");
            }
            if is_word(&v, "deb") || is_word(&v, "rpm") || is_word(&v, "appimage") {
                return String::from_str("📥");
            }
            String::from_str("📁")
        },
        None => String::from_str("📁"),
    }
}

/// The icon shown for a file whose extension is `ext`: chosen by the lowercase extension.
pub fn get_file_icon(ext: Option<&str>) -> (r: String)
    ensures
        r@ == file_icon_spec(
            match ext {
                Some(e) => Some(lowercase_of(e@)),
                None => None,
            },
        ),
{
    match ext {
        Some(e) => {
            let lower = to_lowercase(e);
            file_icon_for_lowercase(Some(lower.as_str()))
        },
        None => file_icon_for_lowercase(None),
    }
}

} // verus!
