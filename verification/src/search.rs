use fuzzy_matcher::FuzzyMatcher;
use vstd::prelude::*;

use crate::calc::{calculate, calculation_allows, expression_of, opt_view};
use crate::desktop::AppInfoView;
use crate::icons::{app_icon_spec, get_app_icon_name};
use crate::state::{texts, FileEntry, FileEntryView, LauncherState};
use crate::text::{
    chars_of, lowercase_of, matches_at, starts_with_seq, string_of_range, to_lowercase,
    trim_bounds, trim_seq,
};

verus! {

// ---------------------------------------------------------------------------
// Fuzzy matching, by fuzzy-matcher
// ---------------------------------------------------------------------------

/// The score that `SkimMatcherV2::default().fuzzy_match(choice, pattern)` gives: none when
/// `pattern` does not fuzzily match `choice`.
pub uninterp spec fn skim_score(choice: Seq<char>, pattern: Seq<char>) -> Option<i64>;

/// Calls `FuzzyMatcher::fuzzy_match` of fuzzy-matcher's `SkimMatcherV2` with its default
/// settings. Claimed of it: the result is `skim_score` of the two texts (the matcher is
/// a function of them alone; its caches do not change results), and an empty pattern
/// scores `Some(0)`, as the source's first test shows. How the score is computed is left
/// unsaid.
#[verifier::external_body]
fn fuzzy_score(choice: &str, pattern: &str) -> (r: Option<i64>)
    ensures
        r == skim_score(choice@, pattern@),
        pattern@.len() == 0 ==> r == Some(0i64),
{
    fuzzy_matcher::skim::SkimMatcherV2::default().fuzzy_match(choice, pattern)
}

/// The fuzzy score of `choice` for `pattern`, zero when they do not match.
pub open spec fn score_of(choice: Seq<char>, pattern: Seq<char>) -> int {
    match skim_score(choice, pattern) {
        Some(s) => s as int,
        None => 0,
    }
}

/// The fuzzy score of `choice` for `pattern`, zero when they do not match.
fn score(choice: &str, pattern: &str) -> (r: i64)
    ensures
        r == score_of(choice@, pattern@),
        pattern@.len() == 0 ==> r == 0,
{
    match fuzzy_score(choice, pattern) {
        Some(s) => s,
        None => 0,
    }
}

// ---------------------------------------------------------------------------
// Results
// ---------------------------------------------------------------------------

/// One entry of the list that the launcher shows.
pub struct SearchResult {
    pub name: String,
    pub desc: String,
    pub icon: String,
    pub result_type: String,
    pub path: String,
}

/// The texts that a `SearchResult` holds.
pub struct SearchResultView {
    pub name: Seq<char>,
    pub desc: Seq<char>,
    pub icon: Seq<char>,
    pub result_type: Seq<char>,
    pub path: Seq<char>,
}

impl View for SearchResult {
    type V = SearchResultView;

    open spec fn view(&self) -> SearchResultView {
        SearchResultView {
            name: self.name@,
            desc: self.desc@,
            icon: self.icon@,
            result_type: self.result_type@,
            path: self.path@,
        }
    }
}

/// A result with the given texts.
pub open spec fn result_view(
    name: Seq<char>,
    desc: Seq<char>,
    icon: Seq<char>,
    result_type: Seq<char>,
    path: Seq<char>,
) -> SearchResultView {
    SearchResultView { name, desc, icon, result_type, path }
}

/// One hit of a search: a finished result, or a file whose description still needs the
/// file's size and modification time.
pub enum SearchHit {
    Ready(SearchResult),
    File { name: String, entry: FileEntry },
}

/// What a `SearchHit` holds.
pub enum HitView {
    Ready(SearchResultView),
    File(Seq<char>, FileEntryView),
}

impl View for SearchHit {
    type V = HitView;

    open spec fn view(&self) -> HitView {
        match self {
            SearchHit::Ready(r) => HitView::Ready(r@),
            SearchHit::File { name, entry } => HitView::File(name@, entry@),
        }
    }
}

/// The views of a sequence of hits.
pub open spec fn hit_views(s: Seq<SearchHit>) -> Seq<HitView> {
    s.map_values(|h: SearchHit| h@)
}

/// The views of a sequence of results.
pub open spec fn result_views(s: Seq<SearchResult>) -> Seq<SearchResultView> {
    s.map_values(|h: SearchResult| h@)
}

fn make_result(name: String, desc: &str, icon: String, result_type: &str, path: String) -> (r:
    SearchResult)
    ensures
        r@ == result_view(name@, desc@, icon@, result_type@, path@),
{
    SearchResult {
        name,
        desc: String::from_str(desc),
        icon,
        result_type: String::from_str(result_type),
        path,
    }
}

fn push_hit(hits: &mut Vec<SearchHit>, h: SearchHit)
    ensures
        hit_views(final(hits)@) == hit_views(old(hits)@).push(h@),
{
    let ghost before = hits@;
    let ghost hv = h@;
    hits.push(h);
    assert(hit_views(hits@) =~= hit_views(before).push(hv));
}

fn push_result(results: &mut Vec<SearchResult>, h: SearchResult)
    ensures
        result_views(final(results)@) == result_views(old(results)@).push(h@),
        final(results)@.len() == old(results)@.len() + 1,
{
    let ghost before = results@;
    let ghost hv = h@;
    results.push(h);
    assert(result_views(results@) =~= result_views(before).push(hv));
}

// ---------------------------------------------------------------------------
// What a search finds
// ---------------------------------------------------------------------------

/// The calculator's hit: the query with the computed value, when there is one.
pub open spec fn calculator_hits(q: Seq<char>, calc: Option<Seq<char>>) -> Seq<HitView> {
    match calc {
        Some(r) => seq![
            HitView::Ready(
                result_view(q + " = "@ + r, "Calculator"@, "🧮"@, "calculator"@, Seq::empty()),
            ),
        ],
        None => Seq::empty(),
    }
}

/// The command palette's hit: a query that starts with `>` proposes to run the trimmed
/// rest, when that is not empty.
pub open spec fn command_hits(q: Seq<char>) -> Seq<HitView> {
    let cmd = trim_seq(q.skip(1));
    if starts_with_seq(q, ">"@) && cmd.len() > 0 {
        seq![
            HitView::Ready(
                result_view("Run: "@ + cmd, "Execute command"@, "🖥️"@, "command"@, cmd),
            ),
        ]
    } else {
        Seq::empty()
    }
}

/// The web search result for a query.
pub open spec fn web_result(q: Seq<char>) -> SearchResultView {
    result_view(
        "Search web for \""@ + q + "\""@,
        "Open in browser"@,
        "🌐"@,
        "web_search"@,
        q,
    )
}

/// The YouTube search result for a query.
pub open spec fn youtube_result(q: Seq<char>) -> SearchResultView {
    result_view(
        "Search YouTube for \""@ + q + "\""@,
        "Open in YouTube"@,
        "▶️"@,
        "youtube_search"@,
        q,
    )
}

/// A query that is not empty can be searched on the web and on YouTube.
pub open spec fn web_hits(q: Seq<char>) -> Seq<HitView> {
    if q.len() > 0 {
        seq![HitView::Ready(web_result(q)), HitView::Ready(youtube_result(q))]
    } else {
        Seq::empty()
    }
}

/// The system commands the launcher offers: name, description and icon.
pub open spec fn system_table() -> Seq<(Seq<char>, Seq<char>, Seq<char>)> {
    seq![
        ("lock"@, "Lock Screen"@, "🔒"@),
        ("shutdown"@, "Shutdown Computer"@, "⏻"@),
        ("reboot"@, "Restart Computer"@, "🔄"@),
        ("sleep"@, "Suspend Computer"@, "😴"@),
        ("logout"@, "Log Out"@, "🚪"@),
        ("settings"@, "System Settings"@, "⚙️"@),
        ("volumeup"@, "Volume Up"@, "🔊"@),
        ("volumedown"@, "Volume Down"@, "🔉"@),
        ("volumemute"@, "Mute/Unmute"@, "🔇"@),
        ("brightnessup"@, "Brightness Up"@, "🔆"@),
        ("brightnessdown"@, "Brightness Down"@, "🔅"@),
        ("wifi"@, "Toggle Wi-Fi"@, "📶"@),
        ("bluetooth"@, "Toggle Bluetooth"@, "🟦"@),
        ("screenshot"@, "Take Screenshot"@, "📸"@),
        ("taskmanager"@, "Task Manager"@, "📊"@),
        ("calculator"@, "Open Calculator"@, "🔢"@),
        ("filemanager"@, "Open File Manager"@, "📁"@),
        ("terminal"@, "Open Terminal"@, "💻"@)
    ]
}

/// The system commands of `t` whose names match the lowercase query with a score above 30.
pub open spec fn system_hits(t: Seq<(Seq<char>, Seq<char>, Seq<char>)>, qlow: Seq<char>) -> Seq<
    HitView,
>
    decreases t.len(),
{
    if t.len() == 0 {
        Seq::empty()
    } else {
        let h = system_hits(t.drop_last(), qlow);
        let (c, d, i) = t.last();
        if score_of(c, qlow) > 30 {
            h.push(HitView::Ready(result_view(c, d, i, "system"@, c)))
        } else {
            h
        }
    }
}

/// The last `n` items of `s`, latest first.
pub open spec fn latest(s: Seq<Seq<char>>, n: nat) -> Seq<Seq<char>> {
    Seq::new(
        if s.len() < n {
            s.len()
        } else {
            n
        },
        |i: int| s[s.len() - 1 - i],
    )
}

/// The recently opened items whose lowercase names match the query with a score above 30.
pub open spec fn recent_hits(items: Seq<Seq<char>>, qlow: Seq<char>) -> Seq<HitView>
    decreases items.len(),
{
    if items.len() == 0 {
        Seq::empty()
    } else {
        let h = recent_hits(items.drop_last(), qlow);
        let it = items.last();
        if score_of(lowercase_of(it), qlow) > 30 {
            h.push(HitView::Ready(result_view(it, "Recently used"@, "🕐"@, "recent"@, it)))
        } else {
            h
        }
    }
}

/// The indexed applications whose key or lowercase name matches the query with a score
/// above 20.
pub open spec fn app_hits(e: Seq<(Seq<char>, AppInfoView)>, qlow: Seq<char>) -> Seq<HitView>
    decreases e.len(),
{
    if e.len() == 0 {
        Seq::empty()
    } else {
        let h = app_hits(e.drop_last(), qlow);
        let (k, a) = e.last();
        if score_of(k, qlow) > 20 || score_of(lowercase_of(a.name), qlow) > 20 {
            h.push(
                HitView::Ready(
                    result_view(
                        a.name,
                        "Application"@,
                        app_icon_spec(lowercase_of(a.icon)),
                        "app"@,
                        a.path,
                    ),
                ),
            )
        } else {
            h
        }
    }
}

/// The indexed files whose key matches the query with a score above 40.
pub open spec fn file_hits(e: Seq<(Seq<char>, FileEntryView)>, qlow: Seq<char>) -> Seq<HitView>
    decreases e.len(),
{
    if e.len() == 0 {
        Seq::empty()
    } else {
        let h = file_hits(e.drop_last(), qlow);
        let (k, f) = e.last();
        if score_of(k, qlow) > 40 {
            h.push(HitView::File(k, f))
        } else {
            h
        }
    }
}

/// Everything a search for `q` finds, in the order shown, before the list is cut.
pub open spec fn search_candidates(
    apps: Seq<(Seq<char>, AppInfoView)>,
    files: Seq<(Seq<char>, FileEntryView)>,
    recents: Seq<Seq<char>>,
    q: Seq<char>,
    calc: Option<Seq<char>>,
) -> Seq<HitView> {
    let qlow = lowercase_of(q);
    calculator_hits(q, calc) + command_hits(q) + web_hits(q) + system_hits(system_table(), qlow)
        + recent_hits(latest(recents, 5), qlow) + app_hits(apps, qlow) + file_hits(files, qlow)
}

/// The first `n` elements of `s`, or all of them when there are fewer.
pub open spec fn at_most<T>(s: Seq<T>, n: nat) -> Seq<T> {
    if s.len() <= n {
        s
    } else {
        s.take(n as int)
    }
}

/// The system commands as literals.
fn system_commands() -> (t: Vec<(&'static str, &'static str, &'static str)>)
    ensures
        t@.map_values(|x: (&str, &str, &str)| (x.0@, x.1@, x.2@)) == system_table(),
{
    let t = vec![
        ("lock", "Lock Screen", "🔒"),
        ("shutdown", "Shutdown Computer", "⏻"),
        ("reboot", "Restart Computer", "🔄"),
        ("sleep", "Suspend Computer", "😴"),
        ("logout", "Log Out", "🚪"),
        ("settings", "System Settings", "⚙️"),
        ("volumeup", "Volume Up", "🔊"),
        ("volumedown", "Volume Down", "🔉"),
        ("volumemute", "Mute/Unmute", "🔇"),
        ("brightnessup", "Brightness Up", "🔆"),
        ("brightnessdown", "Brightness Down", "🔅"),
        ("wifi", "Toggle Wi-Fi", "📶"),
        ("bluetooth", "Toggle Bluetooth", "🟦"),
        ("screenshot", "Take Screenshot", "📸"),
        ("taskmanager", "Task Manager", "📊"),
        ("calculator", "Open Calculator", "🔢"),
        ("filemanager", "Open File Manager", "📁"),
        ("terminal", "Open Terminal", "💻")
    ];
    assert(t@.map_values(|x: (&str, &str, &str)| (x.0@, x.1@, x.2@)) =~= system_table());
    t
}

fn add_calculator_hit(hits: &mut Vec<SearchHit>, query: &str, calc: Option<String>)
    ensures
        hit_views(final(hits)@) == hit_views(old(hits)@) + calculator_hits(query@, opt_view(calc)),
{
    match calc {
        Some(r) => {
            let mut name = String::from_str(query);
            name.append(" = ");
            name.append(r.as_str());
            let res = make_result(name, "Calculator", String::from_str("🧮"), "calculator", String::new());
            push_hit(hits, SearchHit::Ready(res));
        },
        None => {
            assert(hit_views(hits@) + Seq::<HitView>::empty() =~= hit_views(hits@));
        },
    }
}

fn add_command_hit(hits: &mut Vec<SearchHit>, query: &str)
    ensures
        hit_views(final(hits)@) == hit_views(old(hits)@) + command_hits(query@),
{
    let v = chars_of(query);
    let gt = chars_of(">");
    proof {
        reveal_strlit(">");
    }
    if matches_at(&v, &gt, 0) {
        let (a, b) = trim_bounds(&v, 1, v.len());
        assert(v@.skip(1) =~= v@.subrange(1, v@.len() as int));
        if a < b {
            let cmd = string_of_range(&v, a, b);
            let mut name = String::from_str("Run: ");
            name.append(cmd.as_str());
            let res = make_result(name, "Execute command", String::from_str("🖥️"), "command", cmd);
            push_hit(hits, SearchHit::Ready(res));
            return;
        }
    }
    assert(hit_views(hits@) + Seq::<HitView>::empty() =~= hit_views(hits@));
}

fn add_web_hits(hits: &mut Vec<SearchHit>, query: &str)
    ensures
        hit_views(final(hits)@) == hit_views(old(hits)@) + web_hits(query@),
{
    let ghost before = hit_views(hits@);
    if query.is_empty() {
        assert(before + Seq::<HitView>::empty() =~= before);
        return;
    }
    let mut name = String::from_str("Search web for \"");
    name.append(query);
    name.append("\"");
    let res = make_result(name, "Open in browser", String::from_str("🌐"), "web_search", String::from_str(query));
    push_hit(hits, SearchHit::Ready(res));
    let mut name = String::from_str("Search YouTube for \"");
    name.append(query);
    name.append("\"");
    let res = make_result(name, "Open in YouTube", String::from_str("▶️"), "youtube_search", String::from_str(query));
    push_hit(hits, SearchHit::Ready(res));
    assert(hit_views(hits@) =~= before + web_hits(query@));
}

fn add_system_hits(hits: &mut Vec<SearchHit>, qlow: &str)
    ensures
        hit_views(final(hits)@) == hit_views(old(hits)@) + system_hits(system_table(), qlow@),
        qlow@.len() == 0 ==> final(hits)@ == old(hits)@,
{
    let t = system_commands();
    let ghost tv = t@.map_values(|x: (&str, &str, &str)| (x.0@, x.1@, x.2@));
    let ghost base = hit_views(hits@);
    let ghost start = hits@;
    let mut i: usize = 0;
    assert(tv.take(0) =~= Seq::<(Seq<char>, Seq<char>, Seq<char>)>::empty());
    assert(base + Seq::<HitView>::empty() =~= base);
    while i < t.len()
        invariant
            i <= t.len(),
            tv == t@.map_values(|x: (&str, &str, &str)| (x.0@, x.1@, x.2@)),
            hit_views(hits@) == base + system_hits(tv.take(i as int), qlow@),
            qlow@.len() == 0 ==> hits@ == start,
        decreases t.len() - i,
    {
        let (c, d, ic) = t[i];
        assert(tv.take(i + 1).drop_last() =~= tv.take(i as int));
        assert(tv.take(i + 1).last() == (c@, d@, ic@));
        if score(c, qlow) > 30 {
            let res = make_result(String::from_str(c), d, String::from_str(ic), "system", String::from_str(c));
            let ghost prev = hit_views(hits@);
            push_hit(hits, SearchHit::Ready(res));
            assert(hit_views(hits@) =~= base + system_hits(tv.take(i + 1), qlow@));
        }
        i = i + 1;
    }
    assert(tv.take(t.len() as int) =~= tv);
}

fn add_recent_hits(hits: &mut Vec<SearchHit>, recents: &Vec<String>, qlow: &str)
    ensures
        hit_views(final(hits)@) == hit_views(old(hits)@) + recent_hits(latest(texts(recents@), 5), qlow@),
        qlow@.len() == 0 ==> final(hits)@ == old(hits)@,
{
    let n = recents.len();
    let m: usize = if n < 5 { n } else { 5 };
    let ghost items = latest(texts(recents@), 5);
    let ghost base = hit_views(hits@);
    let ghost start = hits@;
    let mut j: usize = 0;
    assert(items.take(0) =~= Seq::<Seq<char>>::empty());
    assert(base + Seq::<HitView>::empty() =~= base);
    while j < m
        invariant
            n == recents.len(),
            m == items.len(),
            j <= m,
            items == latest(texts(recents@), 5),
            hit_views(hits@) == base + recent_hits(items.take(j as int), qlow@),
            qlow@.len() == 0 ==> hits@ == start,
        decreases m - j,
    {
        let item = &recents[n - 1 - j];
        assert(items.take(j + 1).drop_last() =~= items.take(j as int));
        assert(items.take(j + 1).last() == item@);
        let lower = to_lowercase(item.as_str());
        if score(lower.as_str(), qlow) > 30 {
            let res = make_result(item.clone(), "Recently used", String::from_str("🕐"), "recent", item.clone());
            push_hit(hits, SearchHit::Ready(res));
            assert(hit_views(hits@) =~= base + recent_hits(items.take(j + 1), qlow@));
        }
        j = j + 1;
    }
    assert(items.take(m as int) =~= items);
}

fn add_app_hits(hits: &mut Vec<SearchHit>, state: &LauncherState, qlow: &str)
    ensures
        hit_views(final(hits)@) == hit_views(old(hits)@) + app_hits(state.apps@, qlow@),
        qlow@.len() == 0 ==> final(hits)@ == old(hits)@,
{
    let ghost e = state.apps@;
    let ghost base = hit_views(hits@);
    let ghost start = hits@;
    let mut i: usize = 0;
    let n = state.apps.len();
    assert(e.take(0) =~= Seq::<(Seq<char>, AppInfoView)>::empty());
    assert(base + Seq::<HitView>::empty() =~= base);
    while i < n
        invariant
            n == e.len(),
            e == state.apps@,
            i <= n,
            hit_views(hits@) == base + app_hits(e.take(i as int), qlow@),
            qlow@.len() == 0 ==> hits@ == start,
        decreases n - i,
    {
        let entry = state.apps.entry(i);
        let key = &entry.0;
        let app = &entry.1;
        assert(e.take(i + 1).drop_last() =~= e.take(i as int));
        assert(e.take(i + 1).last() == (key@, app@));
        let lower_name = to_lowercase(app.name.as_str());
        if score(key.as_str(), qlow) > 20 || score(lower_name.as_str(), qlow) > 20 {
            let icon = get_app_icon_name(app.icon.as_str());
            let res = make_result(app.name.clone(), "Application", icon, "app", app.path.clone());
            push_hit(hits, SearchHit::Ready(res));
            assert(hit_views(hits@) =~= base + app_hits(e.take(i + 1), qlow@));
        }
        i = i + 1;
    }
    assert(e.take(n as int) =~= e);
}

fn add_file_hits(hits: &mut Vec<SearchHit>, state: &LauncherState, qlow: &str)
    ensures
        hit_views(final(hits)@) == hit_views(old(hits)@) + file_hits(state.files@, qlow@),
        qlow@.len() == 0 ==> final(hits)@ == old(hits)@,
{
    let ghost e = state.files@;
    let ghost base = hit_views(hits@);
    let ghost start = hits@;
    let mut i: usize = 0;
    let n = state.files.len();
    assert(e.take(0) =~= Seq::<(Seq<char>, FileEntryView)>::empty());
    assert(base + Seq::<HitView>::empty() =~= base);
    while i < n
        invariant
            n == e.len(),
            e == state.files@,
            i <= n,
            hit_views(hits@) == base + file_hits(e.take(i as int), qlow@),
            qlow@.len() == 0 ==> hits@ == start,
        decreases n - i,
    {
        let entry = state.files.entry(i);
        let key = &entry.0;
        assert(e.take(i + 1).drop_last() =~= e.take(i as int));
        assert(e.take(i + 1).last() == (key@, entry.1@));
        if score(key.as_str(), qlow) > 40 {
            let hit = SearchHit::File { name: key.clone(), entry: entry.1.copy() };
            push_hit(hits, hit);
            assert(hit_views(hits@) =~= base + file_hits(e.take(i + 1), qlow@));
        }
        i = i + 1;
    }
    assert(e.take(n as int) =~= e);
}

/// The search, given what the calculator made of the query (`calc`): the calculator's
/// value, the command to run, the web and YouTube searches, then the system commands, the
/// five latest opened items, the applications and the files that fuzzily match the
/// lowercase query, cut to the first twenty.
pub fn search_with(state: &LauncherState, query: &str, calc: Option<String>) -> (r: Vec<SearchHit>)
    requires
        state.wf(),
    ensures
        hit_views(r@) == at_most(
            search_candidates(state.apps@, state.files@, texts(state.recents@), query@, opt_view(calc)),
            20,
        ),
        r@.len() <= 20,
        query@.len() == 0 && calc is None ==> r@.len() == 0,
{
    let mut hits: Vec<SearchHit> = Vec::new();
    let qlow = to_lowercase(query);
    let ghost no_calc = calc is None;
    add_calculator_hit(&mut hits, query, calc);
    add_command_hit(&mut hits, query);
    add_web_hits(&mut hits, query);
    proof {
        if query@.len() == 0 && no_calc {
            assert(hits@.len() == 0) by {
                reveal_strlit(">");
                assert(!starts_with_seq(query@, ">"@));
            }
        }
    }
    add_system_hits(&mut hits, qlow.as_str());
    add_recent_hits(&mut hits, &state.recents, qlow.as_str());
    add_app_hits(&mut hits, state, qlow.as_str());
    add_file_hits(&mut hits, state, qlow.as_str());
    let ghost all = hit_views(hits@);
    assert(all =~= search_candidates(state.apps@, state.files@, texts(state.recents@), query@, opt_view(calc)));
    hits.truncate(20);
    assert(hit_views(hits@) =~= at_most(all, 20));
    hits
}

/// Searches for `query`: the calculator, the command palette, web and YouTube searches,
/// system commands, recent items, applications and files, at most twenty hits. The
/// calculator's line is what `calculate` gives for the query. An empty query finds
/// nothing.
pub fn search(state: &LauncherState, query: &str) -> (r: Vec<SearchHit>)
    requires
        state.wf(),
    ensures
        exists|c: Option<Seq<char>>|
            calculation_allows(query@, c) && hit_views(r@) == at_most(
                search_candidates(state.apps@, state.files@, texts(state.recents@), query@, c),
                20,
            ),
        r@.len() <= 20,
        query@.len() == 0 ==> r@.len() == 0,
{
    let calc = calculate(query);
    proof {
        if query@.len() == 0 {
            assert(expression_of(query@) is None);
        }
    }
    let r = search_with(state, query, calc);
    assert(calculation_allows(query@, opt_view(calc)));
    r
}

/// A query that is not empty is always offered a web search: it is among the hits that
/// survive the cut to twenty.
pub proof fn lemma_web_search_offered(
    apps: Seq<(Seq<char>, AppInfoView)>,
    files: Seq<(Seq<char>, FileEntryView)>,
    recents: Seq<Seq<char>>,
    q: Seq<char>,
    calc: Option<Seq<char>>,
)
    requires
        q.len() > 0,
    ensures
        at_most(search_candidates(apps, files, recents, q, calc), 20).contains(
            HitView::Ready(web_result(q)),
        ),
{
    let all = search_candidates(apps, files, recents, q, calc);
    let qlow = lowercase_of(q);
    let k: int = (calculator_hits(q, calc).len() + command_hits(q).len()) as int;
    assert(k <= 2);
    let front = calculator_hits(q, calc) + command_hits(q) + web_hits(q);
    assert(front[k] == HitView::Ready(web_result(q)));
    assert(all[k] == front[k]);
    assert(at_most(all, 20)[k] == all[k]);
}

/// The applications opened most recently, latest first, among the last eight recorded
/// whose lowercase names are indexed.
pub open spec fn recent_app_results(
    apps: Seq<(Seq<char>, AppInfoView)>,
    items: Seq<Seq<char>>,
) -> Seq<SearchResultView>
    decreases items.len(),
{
    if items.len() == 0 {
        Seq::empty()
    } else {
        let h = recent_app_results(apps, items.drop_last());
        match crate::index::lookup(apps, lowercase_of(items.last())) {
            Some(a) => h.push(
                result_view(
                    a.name,
                    "Recently opened"@,
                    app_icon_spec(lowercase_of(a.icon)),
                    "recent"@,
                    a.path,
                ),
            ),
            None => h,
        }
    }
}

/// The recently opened applications: for each of the last eight names recorded, latest
/// first, the indexed application under its lowercase form, if any.
pub fn get_recent_files(state: &LauncherState) -> (r: Vec<SearchResult>)
    requires
        state.wf(),
    ensures
        result_views(r@) == recent_app_results(state.apps@, latest(texts(state.recents@), 8)),
        r@.len() <= 8,
{
    let recents = &state.recents;
    let n = recents.len();
    let m: usize = if n < 8 { n } else { 8 };
    let ghost items = latest(texts(recents@), 8);
    let mut results: Vec<SearchResult> = Vec::new();
    let mut j: usize = 0;
    assert(items.take(0) =~= Seq::<Seq<char>>::empty());
    while j < m
        invariant
            state.wf(),
            n == recents.len(),
            recents == &state.recents,
            m == items.len(),
            j <= m,
            items == latest(texts(recents@), 8),
            result_views(results@) == recent_app_results(state.apps@, items.take(j as int)),
            results@.len() <= j,
        decreases m - j,
    {
        let item = &recents[n - 1 - j];
        assert(items.take(j + 1).drop_last() =~= items.take(j as int));
        assert(items.take(j + 1).last() == item@);
        let lower = to_lowercase(item.as_str());
        match state.apps.get(lower.as_str()) {
            Some(app) => {
                let icon = get_app_icon_name(app.icon.as_str());
                let res = make_result(app.name.clone(), "Recently opened", icon, "recent", app.path.clone());
                push_result(&mut results, res);
            },
            None => {},
        }
        j = j + 1;
    }
    assert(items.take(m as int) =~= items);
    results
}

// ---------------------------------------------------------------------------
// What the hits show of the indexes
// ---------------------------------------------------------------------------

/// If `h` is an application hit, it shows the name and the path of an entry of `apps`.
pub open spec fn shows_indexed_app(h: HitView, apps: Seq<(Seq<char>, AppInfoView)>) -> bool {
    match h {
        HitView::Ready(r) => r.result_type == "app"@ ==> exists|j: int|
            #![trigger apps[j]]
            0 <= j < apps.len() && apps[j].1.name == r.name && apps[j].1.path == r.path,
        HitView::File(_, _) => true,
    }
}

/// Every application hit among `s` shows an entry of `apps`.
pub open spec fn all_show_indexed_apps(s: Seq<HitView>, apps: Seq<(Seq<char>, AppInfoView)>) -> bool {
    forall|i: int| 0 <= i < s.len() ==> shows_indexed_app(#[trigger] s[i], apps)
}

proof fn lemma_all_show_indexed_apps_concat(
    a: Seq<HitView>,
    b: Seq<HitView>,
    apps: Seq<(Seq<char>, AppInfoView)>,
)
    requires
        all_show_indexed_apps(a, apps),
        all_show_indexed_apps(b, apps),
    ensures
        all_show_indexed_apps(a + b, apps),
{
    assert forall|i: int| 0 <= i < (a + b).len() implies shows_indexed_app(#[trigger] (a + b)[i], apps) by {
        if i < a.len() {
            assert((a + b)[i] == a[i]);
        } else {
            assert((a + b)[i] == b[i - a.len()]);
        }
    }
}

proof fn lemma_app_hits_show_entries(e: Seq<(Seq<char>, AppInfoView)>, qlow: Seq<char>)
    ensures
        all_show_indexed_apps(app_hits(e, qlow), e),
    decreases e.len(),
{
    if e.len() > 0 {
        let d = e.drop_last();
        lemma_app_hits_show_entries(d, qlow);
        let h = app_hits(d, qlow);
        let r = app_hits(e, qlow);
        assert forall|i: int| 0 <= i < r.len() implies shows_indexed_app(#[trigger] r[i], e) by {
            if i < h.len() {
                assert(r[i] == h[i]);
                assert(shows_indexed_app(h[i], d));
                match h[i] {
                    HitView::Ready(x) => {
                        if x.result_type == "app"@ {
                            let j = choose|j: int|
                                #![trigger d[j]]
                                0 <= j < d.len() && d[j].1.name == x.name && d[j].1.path == x.path;
                            assert(e[j] == d[j]);
                        }
                    },
                    HitView::File(_, _) => {},
                }
            } else {
                assert(e[e.len() - 1] == e.last());
            }
        }
    }
}

proof fn lemma_typed_hits_no_apps(s: Seq<HitView>, apps: Seq<(Seq<char>, AppInfoView)>)
    requires
        forall|i: int|
            0 <= i < s.len() ==> match #[trigger] s[i] {
                HitView::Ready(r) => r.result_type.len() != 3,
                HitView::File(_, _) => true,
            },
    ensures
        all_show_indexed_apps(s, apps),
{
    reveal_strlit("app");
    assert forall|i: int| 0 <= i < s.len() implies shows_indexed_app(#[trigger] s[i], apps) by {
        match s[i] {
            HitView::Ready(r) => {
                assert(r.result_type.len() != "app"@.len());
            },
            HitView::File(_, _) => {},
        }
    }
}

proof fn lemma_system_hits_typed(t: Seq<(Seq<char>, Seq<char>, Seq<char>)>, qlow: Seq<char>)
    ensures
        forall|i: int|
            0 <= i < system_hits(t, qlow).len() ==> match #[trigger] system_hits(t, qlow)[i] {
                HitView::Ready(r) => r.result_type == "system"@,
                HitView::File(_, _) => false,
            },
    decreases t.len(),
{
    if t.len() > 0 {
        lemma_system_hits_typed(t.drop_last(), qlow);
        let h = system_hits(t.drop_last(), qlow);
        let r = system_hits(t, qlow);
        assert forall|i: int| 0 <= i < r.len() && i < h.len() implies r[i] == h[i] by {}
    }
}

proof fn lemma_recent_hits_typed(items: Seq<Seq<char>>, qlow: Seq<char>)
    ensures
        forall|i: int|
            0 <= i < recent_hits(items, qlow).len() ==> match #[trigger] recent_hits(items, qlow)[i] {
                HitView::Ready(r) => r.result_type == "recent"@,
                HitView::File(_, _) => false,
            },
    decreases items.len(),
{
    if items.len() > 0 {
        lemma_recent_hits_typed(items.drop_last(), qlow);
        let h = recent_hits(items.drop_last(), qlow);
        let r = recent_hits(items, qlow);
        assert forall|i: int| 0 <= i < r.len() && i < h.len() implies r[i] == h[i] by {}
    }
}

proof fn lemma_file_hits_typed(e: Seq<(Seq<char>, FileEntryView)>, qlow: Seq<char>)
    ensures
        forall|i: int|
            0 <= i < file_hits(e, qlow).len() ==> (#[trigger] file_hits(e, qlow)[i]) is File,
    decreases e.len(),
{
    if e.len() > 0 {
        lemma_file_hits_typed(e.drop_last(), qlow);
        let h = file_hits(e.drop_last(), qlow);
        let r = file_hits(e, qlow);
        assert forall|i: int| 0 <= i < r.len() && i < h.len() implies r[i] == h[i] by {}
    }
}

/// Every application a search offers is an indexed one: each hit of type "app" shows
/// the name and the path of an entry of the application index, so opening it finds the
/// entry.
pub proof fn lemma_search_app_hits_indexed(
    apps: Seq<(Seq<char>, AppInfoView)>,
    files: Seq<(Seq<char>, FileEntryView)>,
    recents: Seq<Seq<char>>,
    q: Seq<char>,
    calc: Option<Seq<char>>,
)
    ensures
        all_show_indexed_apps(at_most(search_candidates(apps, files, recents, q, calc), 20), apps),
{
    let qlow = lowercase_of(q);
    reveal_strlit("calculator");
    reveal_strlit("command");
    reveal_strlit("web_search");
    reveal_strlit("youtube_search");
    reveal_strlit("system");
    reveal_strlit("recent");
    let c = calculator_hits(q, calc);
    let m = command_hits(q);
    let w = web_hits(q);
    let sy = system_hits(system_table(), qlow);
    let re = recent_hits(latest(recents, 5), qlow);
    let ap = app_hits(apps, qlow);
    let fi = file_hits(files, qlow);
    lemma_typed_hits_no_apps(c, apps);
    assert forall|i: int| 0 <= i < m.len() implies match #[trigger] m[i] {
        HitView::Ready(r) => r.result_type.len() != 3,
        HitView::File(_, _) => true,
    } by {
        assert(m[i] == m[0]);
    }
    lemma_typed_hits_no_apps(m, apps);
    assert forall|i: int| 0 <= i < w.len() implies match #[trigger] w[i] {
        HitView::Ready(r) => r.result_type.len() != 3,
        HitView::File(_, _) => true,
    } by {
        if i == 0 {
            assert(w[i] == HitView::Ready(web_result(q)));
        } else {
            assert(w[i] == HitView::Ready(youtube_result(q)));
        }
    }
    lemma_typed_hits_no_apps(w, apps);
    lemma_system_hits_typed(system_table(), qlow);
    lemma_typed_hits_no_apps(sy, apps);
    lemma_recent_hits_typed(latest(recents, 5), qlow);
    lemma_typed_hits_no_apps(re, apps);
    lemma_app_hits_show_entries(apps, qlow);
    lemma_file_hits_typed(files, qlow);
    lemma_typed_hits_no_apps(fi, apps);
    lemma_all_show_indexed_apps_concat(c, m, apps);
    lemma_all_show_indexed_apps_concat(c + m, w, apps);
    lemma_all_show_indexed_apps_concat(c + m + w, sy, apps);
    lemma_all_show_indexed_apps_concat(c + m + w + sy, re, apps);
    lemma_all_show_indexed_apps_concat(c + m + w + sy + re, ap, apps);
    lemma_all_show_indexed_apps_concat(c + m + w + sy + re + ap, fi, apps);
    let all = search_candidates(apps, files, recents, q, calc);
    assert(all == c + m + w + sy + re + ap + fi);
    if all.len() > 20 {
        assert forall|i: int| 0 <= i < all.take(20).len() implies shows_indexed_app(
            #[trigger] all.take(20)[i],
            apps,
        ) by {
            assert(all.take(20)[i] == all[i]);
        }
    }
}

/// Each recently opened application shown is the indexed application under the lowercase
/// form of one of the recorded names, with that application's name and path; when every
/// recorded name is indexed, the results follow the names one for one.
pub proof fn lemma_recent_results_indexed(apps: Seq<(Seq<char>, AppInfoView)>, items: Seq<Seq<char>>)
    ensures
        recent_app_results(apps, items).len() <= items.len(),
        forall|k: int|
            0 <= k < recent_app_results(apps, items).len() ==> exists|i: int|
                #![trigger items[i]]
                0 <= i < items.len() && crate::index::lookup(apps, lowercase_of(items[i])) is Some
                    && (#[trigger] recent_app_results(apps, items)[k]).name == crate::index::lookup(
                    apps,
                    lowercase_of(items[i]),
                )->0.name && recent_app_results(apps, items)[k].path == crate::index::lookup(
                    apps,
                    lowercase_of(items[i]),
                )->0.path && recent_app_results(apps, items)[k].result_type == "recent"@,
        (forall|i: int|
            0 <= i < items.len() ==> (#[trigger] crate::index::lookup(apps, lowercase_of(items[i])))
                is Some) ==> recent_app_results(apps, items).len() == items.len() && forall|k: int|
            0 <= k < items.len() ==> (#[trigger] recent_app_results(apps, items)[k]).path
                == crate::index::lookup(apps, lowercase_of(items[k]))->0.path
                && recent_app_results(apps, items)[k].name == crate::index::lookup(
                apps,
                lowercase_of(items[k]),
            )->0.name,
    decreases items.len(),
{
    if items.len() > 0 {
        let d = items.drop_last();
        lemma_recent_results_indexed(apps, d);
        let h = recent_app_results(apps, d);
        let r = recent_app_results(apps, items);
        assert forall|k: int| 0 <= k < r.len() implies exists|i: int|
            #![trigger items[i]]
            0 <= i < items.len() && crate::index::lookup(apps, lowercase_of(items[i])) is Some
                && (#[trigger] r[k]).name == crate::index::lookup(apps, lowercase_of(items[i]))->0.name
                && r[k].path == crate::index::lookup(apps, lowercase_of(items[i]))->0.path
                && r[k].result_type == "recent"@ by {
            if k < h.len() {
                assert(r[k] == h[k]);
                let i = choose|i: int|
                    #![trigger d[i]]
                    0 <= i < d.len() && crate::index::lookup(apps, lowercase_of(d[i])) is Some
                        && h[k].name == crate::index::lookup(apps, lowercase_of(d[i]))->0.name
                        && h[k].path == crate::index::lookup(apps, lowercase_of(d[i]))->0.path
                        && h[k].result_type == "recent"@;
                assert(items[i] == d[i]);
            } else {
                assert(items[items.len() - 1] == items.last());
            }
        }
        if forall|i: int|
            0 <= i < items.len() ==> (#[trigger] crate::index::lookup(apps, lowercase_of(items[i])))
                is Some {
            assert forall|i: int| 0 <= i < d.len() implies (#[trigger] crate::index::lookup(
                apps,
                lowercase_of(d[i]),
            )) is Some by {
                assert(d[i] == items[i]);
                assert(crate::index::lookup(apps, lowercase_of(items[i])) is Some);
            }
            assert(crate::index::lookup(apps, lowercase_of(items[items.len() - 1])) is Some);
            assert forall|k: int| 0 <= k < items.len() implies (#[trigger] r[k]).path
                == crate::index::lookup(apps, lowercase_of(items[k]))->0.path && r[k].name
                == crate::index::lookup(apps, lowercase_of(items[k]))->0.name by {
                if k < d.len() {
                    assert(r[k] == h[k]);
                    assert(items[k] == d[k]);
                }
            }
        }
    }
}

} // verus!
