use vstd::prelude::*;

use crate::text::{
    chars_of, free_of, lemma_trim_trailing_space, lines_of, lines_seq, lowercase_of, matches_at,
    occurs_at, replace_chars, replace_seq,
    same_chars, starts_with_seq, string_of, string_of_range, to_lowercase, trim_bounds,
    trim_seq, views, contains_chars, contains_seq,
};

verus! {

/// An application that the launcher can start.
pub struct AppInfo {
    /// The name shown to the user.
    pub name: String,
    /// Where the application was found (its desktop entry or executable).
    pub path: String,
    /// The icon name that the entry gives, or a name derived from the application's.
    pub icon: String,
    /// The command line that starts it.
    pub command: String,
}

/// The texts that an `AppInfo` holds.
pub struct AppInfoView {
    pub name: Seq<char>,
    pub path: Seq<char>,
    pub icon: Seq<char>,
    pub command: Seq<char>,
}

impl View for AppInfo {
    type V = AppInfoView;

    open spec fn view(&self) -> AppInfoView {
        AppInfoView { name: self.name@, path: self.path@, icon: self.icon@, command: self.command@ }
    }
}

impl AppInfo {
    /// A copy of this application's description.
    pub fn copy(&self) -> (r: AppInfo)
        ensures
            r@ == self@,
    {
        AppInfo {
            name: self.name.clone(),
            path: self.path.clone(),
            icon: self.icon.clone(),
            command: self.command.clone(),
        }
    }
}

/// The value of the last line of `lines` that starts with `key`: the rest of that line,
/// trimmed; empty when no line starts with `key`.
pub open spec fn field_value(lines: Seq<Seq<char>>, key: Seq<char>) -> Seq<char>
    decreases lines.len(),
{
    if lines.len() == 0 {
        Seq::empty()
    } else if starts_with_seq(lines.last(), key) {
        trim_seq(lines.last().skip(key.len() as int))
    } else {
        field_value(lines.drop_last(), key)
    }
}

/// A command line with the field codes of the desktop entry specification taken out, one
/// code after the other, each in a single left-to-right pass.
pub open spec fn without_field_codes(e: Seq<char>) -> Seq<char> {
    let e = replace_seq(e, "%u"@, Seq::empty());
    let e = replace_seq(e, "%U"@, Seq::empty());
    let e = replace_seq(e, "%f"@, Seq::empty());
    let e = replace_seq(e, "%F"@, Seq::empty());
    let e = replace_seq(e, "%d"@, Seq::empty());
    let e = replace_seq(e, "%D"@, Seq::empty());
    let e = replace_seq(e, "%n"@, Seq::empty());
    let e = replace_seq(e, "%N"@, Seq::empty());
    let e = replace_seq(e, "%i"@, Seq::empty());
    let e = replace_seq(e, "%c"@, Seq::empty());
    let e = replace_seq(e, "%k"@, Seq::empty());
    let e = replace_seq(e, "%v"@, Seq::empty());
    replace_seq(e, "%m"@, Seq::empty())
}

/// The field codes of the desktop entry specification that a command line may hold.
pub open spec fn is_field_code(c: Seq<char>) -> bool {
    ||| c == "%u"@ ||| c == "%U"@ ||| c == "%f"@ ||| c == "%F"@ ||| c == "%d"@
    ||| c == "%D"@ ||| c == "%n"@ ||| c == "%N"@ ||| c == "%i"@ ||| c == "%c"@
    ||| c == "%k"@ ||| c == "%v"@ ||| c == "%m"@
}

/// A text without percent signs loses nothing to the removal of a code.
proof fn lemma_replace_code_plain(s: Seq<char>, d: Seq<char>)
    requires
        free_of(s, '%'),
        d.len() == 2,
        d[0] == '%',
    ensures
        replace_seq(s, d, Seq::empty()) == s,
    decreases s.len(),
{
    if s.len() > 0 {
        assert(!occurs_at(s, d, 0)) by {
            if occurs_at(s, d, 0) {
                assert(s.subrange(0, 2)[0] == s[0]);
            }
        }
        let t = s.drop_first();
        assert forall|i: int| 0 <= i < t.len() implies t[i] != '%' by {
            assert(t[i] == s[i + 1]);
        }
        lemma_replace_code_plain(t, d);
        assert(seq![s[0]] + t =~= s);
    }
}

/// Removing a code from a text that starts with no percent sign keeps that start.
proof fn lemma_replace_code_prefix(p: Seq<char>, r: Seq<char>, d: Seq<char>)
    requires
        free_of(p, '%'),
        d.len() == 2,
        d[0] == '%',
    ensures
        replace_seq(p + r, d, Seq::empty()) == p + replace_seq(r, d, Seq::empty()),
    decreases p.len(),
{
    if p.len() > 0 {
        let s = p + r;
        assert(!occurs_at(s, d, 0)) by {
            if occurs_at(s, d, 0) {
                assert(s.subrange(0, 2)[0] == s[0]);
            }
        }
        let t = p.drop_first();
        assert forall|i: int| 0 <= i < t.len() implies t[i] != '%' by {
            assert(t[i] == p[i + 1]);
        }
        lemma_replace_code_prefix(t, r, d);
        assert(s.drop_first() =~= t + r);
        assert(seq![s[0]] + (t + replace_seq(r, d, Seq::empty())) =~= p + replace_seq(
            r,
            d,
            Seq::empty(),
        ));
    }
}

/// Removing the code `d` from `p + c + q`, where `c` is a code and `p`, `q` hold no
/// percent sign: `c` goes when it is `d`, and nothing else changes.
proof fn lemma_replace_code_step(p: Seq<char>, c: Seq<char>, q: Seq<char>, d: Seq<char>)
    requires
        free_of(p, '%'),
        free_of(q, '%'),
        c.len() == 2,
        c[0] == '%',
        c[1] != '%',
        d.len() == 2,
        d[0] == '%',
    ensures
        replace_seq(p + c + q, d, Seq::empty()) == (if c == d {
            p + q
        } else {
            p + c + q
        }),
        replace_seq(p + q, d, Seq::empty()) == p + q,
{
    lemma_replace_code_prefix(p, c + q, d);
    assert(p + c + q =~= p + (c + q));
    let s = c + q;
    assert(free_of(p + q, '%')) by {
        assert forall|i: int| 0 <= i < (p + q).len() implies (p + q)[i] != '%' by {
            if i < p.len() {
                assert((p + q)[i] == p[i]);
            } else {
                assert((p + q)[i] == q[i - p.len()]);
            }
        }
    }
    lemma_replace_code_plain(p + q, d);
    if c == d {
        assert(occurs_at(s, d, 0)) by {
            assert(s.subrange(0, 2) =~= c);
        }
        assert(s.skip(2) =~= q);
        lemma_replace_code_plain(q, d);
        assert(Seq::<char>::empty() + q =~= q);
        assert(p + q =~= p + (Seq::<char>::empty() + q));
    } else {
        assert(!occurs_at(s, d, 0)) by {
            if occurs_at(s, d, 0) {
                assert(s.subrange(0, 2) == d);
                assert(s.subrange(0, 2) =~= c);
            }
        }
        let t = s.drop_first();
        assert(t =~= seq![c[1]] + q);
        assert(free_of(t, '%')) by {
            assert forall|i: int| 0 <= i < t.len() implies t[i] != '%' by {
                if i > 0 {
                    assert(t[i] == q[i - 1]);
                }
            }
        }
        lemma_replace_code_plain(t, d);
        assert(seq![s[0]] + t =~= s);
        assert(p + c + q =~= p + s);
    }
}

/// Each field code that a command line holds, between text without percent signs, is
/// taken out and nothing else: `p + c + q` becomes `p + q`. So `Exec=gedit %f` gives
/// the command `gedit`.
pub proof fn lemma_field_code_removed(p: Seq<char>, c: Seq<char>, q: Seq<char>)
    requires
        free_of(p, '%'),
        free_of(q, '%'),
        is_field_code(c),
    ensures
        without_field_codes(p + c + q) == p + q,
        trim_seq(without_field_codes(p + seq![' '] + c)) == trim_seq(p),
{
    reveal_strlit("%u");
    reveal_strlit("%U");
    reveal_strlit("%f");
    reveal_strlit("%F");
    reveal_strlit("%d");
    reveal_strlit("%D");
    reveal_strlit("%n");
    reveal_strlit("%N");
    reveal_strlit("%i");
    reveal_strlit("%c");
    reveal_strlit("%k");
    reveal_strlit("%v");
    reveal_strlit("%m");
    lemma_field_codes_step_all(p, c, q);
    let p2 = p + seq![' '];
    assert(free_of(p2, '%')) by {
        assert forall|i: int| 0 <= i < p2.len() implies p2[i] != '%' by {
            if i < p.len() {
                assert(p2[i] == p[i]);
            }
        }
    }
    lemma_field_codes_step_all(p2, c, Seq::empty());
    assert(p2 + c + Seq::<char>::empty() =~= p + seq![' '] + c);
    assert(p2 + Seq::<char>::empty() =~= p2);
    lemma_trim_trailing_space(p);
}

/// The command of a parsed entry is its `Exec=` value with the field code taken out and
/// trimmed: an `Exec=` value `p + c + q`, with `c` a field code and no percent sign in
/// `p` or `q`, gives the command `trim(p + q)`.
pub proof fn lemma_entry_command_without_code(
    content: Seq<char>,
    path: Seq<char>,
    p: Seq<char>,
    c: Seq<char>,
    q: Seq<char>,
)
    requires
        desktop_entry(content, path) is Some,
        field_value(lines_seq(content), "Exec="@) == p + c + q,
        free_of(p, '%'),
        free_of(q, '%'),
        is_field_code(c),
    ensures
        desktop_entry(content, path)->0.command == trim_seq(p + q),
{
    lemma_field_code_removed(p, c, q);
}

proof fn lemma_field_codes_step_all(p: Seq<char>, c: Seq<char>, q: Seq<char>)
    requires
        free_of(p, '%'),
        free_of(q, '%'),
        is_field_code(c),
        c.len() == 2,
        c[0] == '%',
        c[1] != '%',
    ensures
        without_field_codes(p + c + q) == p + q,
{
    reveal_strlit("%u");
    reveal_strlit("%U");
    reveal_strlit("%f");
    reveal_strlit("%F");
    reveal_strlit("%d");
    reveal_strlit("%D");
    reveal_strlit("%n");
    reveal_strlit("%N");
    reveal_strlit("%i");
    reveal_strlit("%c");
    reveal_strlit("%k");
    reveal_strlit("%v");
    reveal_strlit("%m");
    let a = p + c + q;
    let b = p + q;
    lemma_replace_code_step(p, c, q, "%u"@);
    let e1 = replace_seq(a, "%u"@, Seq::empty());
    lemma_replace_code_step(p, c, q, "%U"@);
    let e2 = replace_seq(e1, "%U"@, Seq::empty());
    lemma_replace_code_step(p, c, q, "%f"@);
    let e3 = replace_seq(e2, "%f"@, Seq::empty());
    lemma_replace_code_step(p, c, q, "%F"@);
    let e4 = replace_seq(e3, "%F"@, Seq::empty());
    lemma_replace_code_step(p, c, q, "%d"@);
    let e5 = replace_seq(e4, "%d"@, Seq::empty());
    lemma_replace_code_step(p, c, q, "%D"@);
    let e6 = replace_seq(e5, "%D"@, Seq::empty());
    lemma_replace_code_step(p, c, q, "%n"@);
    let e7 = replace_seq(e6, "%n"@, Seq::empty());
    lemma_replace_code_step(p, c, q, "%N"@);
    let e8 = replace_seq(e7, "%N"@, Seq::empty());
    lemma_replace_code_step(p, c, q, "%i"@);
    let e9 = replace_seq(e8, "%i"@, Seq::empty());
    lemma_replace_code_step(p, c, q, "%c"@);
    let e10 = replace_seq(e9, "%c"@, Seq::empty());
    lemma_replace_code_step(p, c, q, "%k"@);
    let e11 = replace_seq(e10, "%k"@, Seq::empty());
    lemma_replace_code_step(p, c, q, "%v"@);
    let e12 = replace_seq(e11, "%v"@, Seq::empty());
    lemma_replace_code_step(p, c, q, "%m"@);
    assert(e1 == a || e1 == b);
    assert(e2 == a || e2 == b);
    assert(e3 == a || e3 == b);
    assert(e4 == a || e4 == b);
    assert(e5 == a || e5 == b);
    assert(e6 == a || e6 == b);
    assert(e7 == a || e7 == b);
    assert(e8 == a || e8 == b);
    assert(e9 == a || e9 == b);
    assert(e10 == a || e10 == b);
    assert(e11 == a || e11 == b);
    assert(e12 == a || e12 == b);
}

/// The icon of an application named `name` whose entry gives `icon`: the given icon,
/// unless it is empty or "unknown", in which case the lowercase name.
pub open spec fn icon_for(name: Seq<char>, icon: Seq<char>) -> Seq<char> {
    if icon.len() == 0 || icon == "unknown"@ {
        lowercase_of(name)
    } else {
        icon
    }
}

/// The application that a desktop entry with text `content`, found at `path`, describes:
/// none when it gives no name.
pub open spec fn desktop_entry(content: Seq<char>, path: Seq<char>) -> Option<AppInfoView> {
    let lines = lines_seq(content);
    let name = field_value(lines, "Name="@);
    if name.len() == 0 {
        None
    } else {
        Some(
            AppInfoView {
                name,
                path,
                icon: icon_for(name, field_value(lines, "Icon="@)),
                command: trim_seq(without_field_codes(field_value(lines, "Exec="@))),
            },
        )
    }
}

/// `e` with every occurrence of `code` taken out.
fn remove_code(e: Vec<char>, code: &str) -> (r: Vec<char>)
    requires
        code@.len() > 0,
    ensures
        r@ == replace_seq(e@, code@, Seq::empty()),
{
    let p = chars_of(code);
    let nothing: Vec<char> = Vec::new();
    replace_chars(&e, &p, &nothing)
}

/// `e` with the field codes taken out.
fn remove_field_codes(e: Vec<char>) -> (r: Vec<char>)
    ensures
        r@ == without_field_codes(e@),
{
    proof {
        reveal_strlit("%u");
        reveal_strlit("%U");
        reveal_strlit("%f");
        reveal_strlit("%F");
        reveal_strlit("%d");
        reveal_strlit("%D");
        reveal_strlit("%n");
        reveal_strlit("%N");
        reveal_strlit("%i");
        reveal_strlit("%c");
        reveal_strlit("%k");
        reveal_strlit("%v");
        reveal_strlit("%m");
    }
    let e = remove_code(e, "%u");
    let e = remove_code(e, "%U");
    let e = remove_code(e, "%f");
    let e = remove_code(e, "%F");
    let e = remove_code(e, "%d");
    let e = remove_code(e, "%D");
    let e = remove_code(e, "%n");
    let e = remove_code(e, "%N");
    let e = remove_code(e, "%i");
    let e = remove_code(e, "%c");
    let e = remove_code(e, "%k");
    let e = remove_code(e, "%v");
    remove_code(e, "%m")
}

/// The trimmed rest of `line` after `key`, when `line` starts with `key`.
fn value_after(line: &Vec<char>, key: &Vec<char>) -> (r: Option<Vec<char>>)
    ensures
        starts_with_seq(line@, key@) ==> r is Some && r->0@ == trim_seq(
            line@.skip(key@.len() as int),
        ),
        !starts_with_seq(line@, key@) ==> r is None,
{
    if matches_at(line, key, 0) {
        let (a, b) = trim_bounds(line, key.len(), line.len());
        assert(line@.skip(key@.len() as int) =~= line@.subrange(
            key@.len() as int,
            line@.len() as int,
        ));
        let mut out: Vec<char> = Vec::new();
        let mut k = a;
        while k < b
            invariant
                a <= k <= b <= line.len(),
                out@ == line@.subrange(a as int, k as int),
            decreases b - k,
        {
            out.push(line[k]);
            k = k + 1;
            assert(out@ =~= line@.subrange(a as int, k as int));
        }
        Some(out)
    } else {
        None
    }
}

/// Reads a desktop entry: the application described by the text `content` of the entry
/// found at `path`, or none when the entry gives no name. Its name, icon and command come
/// from the last `Name=`, `Icon=` and `Exec=` lines.
pub fn parse_desktop_entry(content: &str, path: &str) -> (r: Option<AppInfo>)
    ensures
        match desktop_entry(content@, path@) {
            Some(app) => r is Some && r->0@ == app,
            None => r is None,
        },
{
    let text = chars_of(content);
    let lines = lines_of(&text);
    let ghost ls = views(lines@);
    let name_key = chars_of("Name=");
    let icon_key = chars_of("Icon=");
    let exec_key = chars_of("Exec=");
    let mut name: Vec<char> = Vec::new();
    let mut icon: Vec<char> = Vec::new();
    let mut exec: Vec<char> = Vec::new();
    let mut i: usize = 0;
    assert(ls.take(0) =~= Seq::<Seq<char>>::empty());
    while i < lines.len()
        invariant
            i <= lines.len(),
            ls == views(lines@),
            name_key@ == "Name="@,
            icon_key@ == "Icon="@,
            exec_key@ == "Exec="@,
            name@ == field_value(ls.take(i as int), "Name="@),
            icon@ == field_value(ls.take(i as int), "Icon="@),
            exec@ == field_value(ls.take(i as int), "Exec="@),
        decreases lines.len() - i,
    {
        let line = &lines[i];
        proof {
            reveal_strlit("Name=");
            reveal_strlit("Icon=");
            reveal_strlit("Exec=");
            if starts_with_seq(line@, "Name="@) {
                assert(line@.subrange(0, 5)[0] == 'N');
            }
            if starts_with_seq(line@, "Icon="@) {
                assert(line@.subrange(0, 5)[0] == 'I');
            }
        }
        assert(ls.take(i + 1).drop_last() =~= ls.take(i as int));
        assert(ls.take(i + 1).last() == line@);
        if let Some(v) = value_after(line, &name_key) {
            name = v;
        } else if let Some(v) = value_after(line, &icon_key) {
            icon = v;
        } else if let Some(v) = value_after(line, &exec_key) {
            exec = v;
        }
        i = i + 1;
    }
    assert(ls.take(lines.len() as int) =~= ls);
    if name.len() == 0 {
        return None;
    }
    let name_text = string_of(&name);
    let unknown = chars_of("unknown");
    let icon_text = if icon.len() == 0 || same_chars(&icon, &unknown) {
        to_lowercase(name_text.as_str())
    } else {
        string_of(&icon)
    };
    let stripped = remove_field_codes(exec);
    let (a, b) = trim_bounds(&stripped, 0, stripped.len());
    assert(stripped@.subrange(0, stripped@.len() as int) =~= stripped@);
    let exec_text = string_of_range(&stripped, a, b);
    Some(AppInfo { name: name_text, path: String::from_str(path), icon: icon_text, command: exec_text })
}

/// Whether a file with extension `ext` is a desktop entry (`.desktop`).
pub fn is_desktop_extension(ext: Option<&str>) -> (r: bool)
    ensures
        r == (ext is Some && ext->0@ == "desktop"@),
{
    match ext {
        Some(e) => {
            let v = chars_of(e);
            let d = chars_of("desktop");
            same_chars(&v, &d)
        },
        None => false,
    }
}

/// Whether a file with extension `ext` is a Windows executable (`.exe`).
pub fn is_exe_extension(ext: Option<&str>) -> (r: bool)
    ensures
        r == (ext is Some && ext->0@ == "exe"@),
{
    match ext {
        Some(e) => {
            let v = chars_of(e);
            let d = chars_of("exe");
            same_chars(&v, &d)
        },
        None => false,
    }
}

/// An executable with file stem `stem` counts as an application: its stem is not empty
/// and names no installer or uninstaller.
pub open spec fn is_launchable_stem(stem: Seq<char>) -> bool {
    stem.len() > 0 && !contains_seq(stem, "uninstall"@) && !contains_seq(stem, "installer"@)
}

/// The application for a Windows executable at `exe_path` whose file stem is `stem`,
/// or none when the stem is empty or names an installer or uninstaller.
pub fn exe_app_entry(stem: &str, exe_path: &str) -> (r: Option<AppInfo>)
    ensures
        is_launchable_stem(stem@) ==> r is Some && r->0@ == (AppInfoView {
            name: stem@,
            path: exe_path@,
            icon: "📱"@,
            command: exe_path@,
        }),
        !is_launchable_stem(stem@) ==> r is None,
{
    let v = chars_of(stem);
    let un = chars_of("uninstall");
    let inst = chars_of("installer");
    if v.len() == 0 || contains_chars(&v, &un) || contains_chars(&v, &inst) {
        return None;
    }
    Some(
        AppInfo {
            name: String::from_str(stem),
            path: String::from_str(exe_path),
            icon: String::from_str("📱"),
            command: String::from_str(exe_path),
        },
    )
}

} // verus!
