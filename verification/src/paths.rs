use vstd::prelude::*;

use crate::state::texts;
use crate::text::{occurs_at, replace, replace_seq};

verus! {

/// The home directory the file index starts from: `HOME`, else `USERPROFILE`, else
/// "/home" on Linux and "C:\Users" elsewhere.
pub open spec fn home_spec(home: Option<Seq<char>>, userprofile: Option<Seq<char>>, linux: bool) -> Seq<char> {
    match home {
        Some(h) => h,
        None => match userprofile {
            Some(u) => u,
            None => if linux {
                "/home"@
            } else {
                "C:\\Users"@
            },
        },
    }
}

/// The home directory, from the values of `HOME` and `USERPROFILE` (when set).
pub fn resolve_home(home: Option<String>, userprofile: Option<String>, linux: bool) -> (r: String)
    ensures
        r@ == home_spec(
            match home {
                Some(h) => Some(h@),
                None => None,
            },
            match userprofile {
                Some(u) => Some(u@),
                None => None,
            },
            linux,
        ),
{
    match home {
        Some(h) => h,
        None => match userprofile {
            Some(u) => u,
            None => if linux {
                String::from_str("/home")
            } else {
                String::from_str("C:\\Users")
            },
        },
    }
}

fn push_joined(dirs: &mut Vec<String>, home: &str, tail: &str)
    ensures
        texts(final(dirs)@) == texts(old(dirs)@).push(home@ + tail@),
{
    let ghost before = dirs@;
    let mut s = String::from_str(home);
    s.append(tail);
    dirs.push(s);
    assert(texts(dirs@) =~= texts(before).push(home@ + tail@));
}

fn push_text(dirs: &mut Vec<String>, s: String)
    ensures
        texts(final(dirs)@) == texts(old(dirs)@).push(s@),
{
    let ghost before = dirs@;
    let ghost sv = s@;
    dirs.push(s);
    assert(texts(dirs@) =~= texts(before).push(sv));
}

/// The folders whose files are indexed, under the home directory `home`: the usual user
/// folders in Turkish, English and German on Linux, in English elsewhere.
pub open spec fn file_dirs_spec(home: Seq<char>, linux: bool) -> Seq<Seq<char>> {
    if linux {
        seq![
            home + "/Masaüstü"@,
            home + "/Belgeler"@,
            home + "/İndirilenler"@,
            home + "/Resimler"@,
            home + "/Müzik"@,
            home + "/Videolar"@,
            home + "/Desktop"@,
            home + "/Documents"@,
            home + "/Downloads"@,
            home + "/Pictures"@,
            home + "/Music"@,
            home + "/Videos"@,
            home + "/Schreibtisch"@,
            home + "/Dokumente"@,
            home + "/Bilder"@,
            home + "/Musik"@
        ]
    } else {
        seq![
            home + "\\Desktop"@,
            home + "\\Documents"@,
            home + "\\Downloads"@,
            home + "\\Pictures"@,
            home + "\\Music"@,
            home + "\\Videos"@
        ]
    }
}

/// The folders whose files are indexed.
pub fn file_index_dirs(home: &str, linux: bool) -> (r: Vec<String>)
    ensures
        texts(r@) == file_dirs_spec(home@, linux),
{
    let mut dirs: Vec<String> = Vec::new();
    assert(texts(dirs@) =~= Seq::<Seq<char>>::empty());
    if linux {
        push_joined(&mut dirs, home, "/Masaüstü");
        push_joined(&mut dirs, home, "/Belgeler");
        push_joined(&mut dirs, home, "/İndirilenler");
        push_joined(&mut dirs, home, "/Resimler");
        push_joined(&mut dirs, home, "/Müzik");
        push_joined(&mut dirs, home, "/Videolar");
        push_joined(&mut dirs, home, "/Desktop");
        push_joined(&mut dirs, home, "/Documents");
        push_joined(&mut dirs, home, "/Downloads");
        push_joined(&mut dirs, home, "/Pictures");
        push_joined(&mut dirs, home, "/Music");
        push_joined(&mut dirs, home, "/Videos");
        push_joined(&mut dirs, home, "/Schreibtisch");
        push_joined(&mut dirs, home, "/Dokumente");
        push_joined(&mut dirs, home, "/Bilder");
        push_joined(&mut dirs, home, "/Musik");
    } else {
        push_joined(&mut dirs, home, "\\Desktop");
        push_joined(&mut dirs, home, "\\Documents");
        push_joined(&mut dirs, home, "\\Downloads");
        push_joined(&mut dirs, home, "\\Pictures");
        push_joined(&mut dirs, home, "\\Music");
        push_joined(&mut dirs, home, "\\Videos");
    }
    assert(texts(dirs@) =~= file_dirs_spec(home@, linux));
    dirs
}

/// The folders searched for desktop entries on Linux: the system's, and, when the home
/// directory is known, the user's and Flatpak's.
pub open spec fn linux_app_dirs_spec(home: Option<Seq<char>>) -> Seq<Seq<char>> {
    let base = seq!["/usr/share/applications"@, "/usr/local/share/applications"@];
    match home {
        Some(h) => base + seq![
            h + "/.local/share/applications"@,
            h + "/.local/share/flatpak/exports/share/applications"@,
            "/var/lib/flatpak/exports/share/applications"@,
        ],
        None => base,
    }
}

/// The folders searched for desktop entries on Linux, given `HOME` (when set).
pub fn linux_app_dirs(home: Option<&str>) -> (r: Vec<String>)
    ensures
        texts(r@) == linux_app_dirs_spec(
            match home {
                Some(h) => Some(h@),
                None => None,
            },
        ),
{
    let mut dirs: Vec<String> = Vec::new();
    assert(texts(dirs@) =~= Seq::<Seq<char>>::empty());
    push_text(&mut dirs, String::from_str("/usr/share/applications"));
    push_text(&mut dirs, String::from_str("/usr/local/share/applications"));
    if let Some(h) = home {
        push_joined(&mut dirs, h, "/.local/share/applications");
        push_joined(&mut dirs, h, "/.local/share/flatpak/exports/share/applications");
        push_text(&mut dirs, String::from_str("/var/lib/flatpak/exports/share/applications"));
    }
    assert(texts(dirs@) =~= linux_app_dirs_spec(
        match home {
            Some(h) => Some(h@),
            None => None,
        },
    ));
    dirs
}

/// The folders searched for programs on Windows: the two program folders and the user's
/// local programs folder, built from a template in which "{}" stands for `USERPROFILE`
/// (or "C:\Users\Default" when it is not set).
pub open spec fn windows_app_dirs_spec(userprofile: Option<Seq<char>>) -> Seq<Seq<char>> {
    let home = match userprofile {
        Some(u) => u,
        None => "C:\\Users\\Default"@,
    };
    seq![
        replace_seq("C:\\Program Files"@, "{}"@, home),
        replace_seq("C:\\Program Files (x86)"@, "{}"@, home),
        replace_seq("C:\\Users\\{}\\AppData\\Local\\Programs"@, "{}"@, home),
    ]
}

/// The folders searched for programs on Windows, given `USERPROFILE` (when set).
pub fn windows_app_dirs(userprofile: Option<&str>) -> (r: Vec<String>)
    ensures
        texts(r@) == windows_app_dirs_spec(
            match userprofile {
                Some(u) => Some(u@),
                None => None,
            },
        ),
{
    let home: &str = match userprofile {
        Some(u) => u,
        None => "C:\\Users\\Default",
    };
    proof {
        reveal_strlit("{}");
    }
    let mut dirs: Vec<String> = Vec::new();
    assert(texts(dirs@) =~= Seq::<Seq<char>>::empty());
    push_text(&mut dirs, replace("C:\\Program Files", "{}", home));
    push_text(&mut dirs, replace("C:\\Program Files (x86)", "{}", home));
    push_text(&mut dirs, replace("C:\\Users\\{}\\AppData\\Local\\Programs", "{}", home));
    assert(texts(dirs@) =~= windows_app_dirs_spec(
        match userprofile {
            Some(u) => Some(u@),
            None => None,
        },
    ));
    dirs
}

// ---------------------------------------------------------------------------
// Web searches
// ---------------------------------------------------------------------------

/// The address of a web search for `q`, spaces written as plus signs.
pub open spec fn web_search_url_spec(q: Seq<char>) -> Seq<char> {
    "https://www.google.com/search?q="@ + replace_seq(q, " "@, "+"@)
}

/// The address of a YouTube search for `q`, spaces written as plus signs.
pub open spec fn youtube_search_url_spec(q: Seq<char>) -> Seq<char> {
    "https://www.youtube.com/results?search_query="@ + replace_seq(q, " "@, "+"@)
}

/// The address of a Google search for `query`.
pub fn web_search_url(query: &str) -> (r: String)
    ensures
        r@ == web_search_url_spec(query@),
{
    proof {
        reveal_strlit(" ");
    }
    let mut s = String::from_str("https://www.google.com/search?q=");
    let q = replace(query, " ", "+");
    s.append(q.as_str());
    s
}

/// The address of a YouTube search for `query`.
pub fn youtube_search_url(query: &str) -> (r: String)
    ensures
        r@ == youtube_search_url_spec(query@),
{
    proof {
        reveal_strlit(" ");
    }
    let mut s = String::from_str("https://www.youtube.com/results?search_query=");
    let q = replace(query, " ", "+");
    s.append(q.as_str());
    s
}

/// Replacing every space by a plus sign leaves no space.
pub proof fn lemma_no_space_after_replace(s: Seq<char>)
    ensures
        !replace_seq(s, " "@, "+"@).contains(' '),
    decreases s.len(),
{
    reveal_strlit(" ");
    reveal_strlit("+");
    if s.len() > 0 {
        lemma_no_space_after_replace(s.drop_first());
        lemma_no_space_after_replace(s.skip(1));
        let r = replace_seq(s, " "@, "+"@);
        if occurs_at(s, " "@, 0) {
            assert(s.skip(1) =~= s.skip(" "@.len() as int));
            let rest = replace_seq(s.skip(1), " "@, "+"@);
            assert(r =~= "+"@ + rest);
            assert forall|i: int| 0 <= i < r.len() implies r[i] != ' ' by {
                if i > 0 {
                    assert(r[i] == rest[i - 1]);
                }
            }
        } else {
            if s[0] == ' ' {
                assert(s.subrange(0, 1) =~= " "@);
                assert(false);
            }
            let rest = replace_seq(s.drop_first(), " "@, "+"@);
            assert(r =~= seq![s[0]] + rest);
            assert forall|i: int| 0 <= i < r.len() implies r[i] != ' ' by {
                if i > 0 {
                    assert(r[i] == rest[i - 1]);
                }
            }
        }
    }
}

/// The search addresses hold no spaces: every space of the query is written as a plus.
pub proof fn lemma_search_urls_have_no_spaces(q: Seq<char>)
    ensures
        !web_search_url_spec(q).contains(' '),
        !youtube_search_url_spec(q).contains(' '),
{
    reveal_strlit("https://www.google.com/search?q=");
    reveal_strlit("https://www.youtube.com/results?search_query=");
    lemma_no_space_after_replace(q);
    let r = replace_seq(q, " "@, "+"@);
    let a = "https://www.google.com/search?q="@;
    let b = "https://www.youtube.com/results?search_query="@;
    assert forall|i: int| 0 <= i < (a + r).len() implies (a + r)[i] != ' ' by {
        if i >= a.len() {
            assert((a + r)[i] == r[i - a.len()]);
        }
    }
    assert forall|i: int| 0 <= i < (b + r).len() implies (b + r)[i] != ' ' by {
        if i >= b.len() {
            assert((b + r)[i] == r[i - b.len()]);
        }
    }
}

} // verus!
