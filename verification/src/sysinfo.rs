use vstd::prelude::*;

use crate::calc::opt_view;
use crate::text::{
    chars_of, contains_chars, copy_chars, contains_seq, decimal_seq, free_of, lemma_split_concat,
    lemma_split_first_piece, lemma_split_free, lemma_split_seq_nonempty, lines_of, lines_seq, matches_at,
    parse_unsigned, parse_unsigned_seq, push_decimal, split_chars, split_seq, starts_with_seq,
    string_of, string_of_range, trim_bounds, trim_seq, views, words_of, words_seq,
};

verus! {

// ---------------------------------------------------------------------------
// Helpers on lines and pieces
// ---------------------------------------------------------------------------

/// `s` without the copies of `c` it starts with.
pub open spec fn strip_start_char(s: Seq<char>, c: char) -> Seq<char>
    decreases s.len(),
{
    if s.len() > 0 && s[0] == c {
        strip_start_char(s.drop_first(), c)
    } else {
        s
    }
}

/// `s` without the copies of `c` it ends with (`str::trim_end_matches`).
pub open spec fn strip_end_char(s: Seq<char>, c: char) -> Seq<char>
    decreases s.len(),
{
    if s.len() > 0 && s.last() == c {
        strip_end_char(s.drop_last(), c)
    } else {
        s
    }
}

/// `s` without leading and trailing copies of `c` (`str::trim_matches`).
pub open spec fn trim_char_seq(s: Seq<char>, c: char) -> Seq<char> {
    strip_end_char(strip_start_char(s, c), c)
}

/// The bounds of `trim_char_seq(v[lo..hi], c)` within `v`, or of only the end stripped.
fn strip_char_bounds(v: &Vec<char>, lo: usize, hi: usize, c: char, start_too: bool) -> (r: (usize, usize))
    requires
        lo <= hi <= v.len(),
    ensures
        lo <= r.0 <= r.1 <= hi,
        start_too ==> v@.subrange(r.0 as int, r.1 as int) == trim_char_seq(v@.subrange(lo as int, hi as int), c),
        !start_too ==> v@.subrange(r.0 as int, r.1 as int) == strip_end_char(v@.subrange(lo as int, hi as int), c),
{
    let mut a = lo;
    if start_too {
        while a < hi && v[a] == c
            invariant
                lo <= a <= hi <= v.len(),
                strip_start_char(v@.subrange(a as int, hi as int), c) == strip_start_char(
                    v@.subrange(lo as int, hi as int),
                    c,
                ),
            decreases hi - a,
        {
            assert(v@.subrange(a as int, hi as int).drop_first() =~= v@.subrange(a + 1, hi as int));
            a = a + 1;
        }
    }
    let mut b = hi;
    while b > a && v[b - 1] == c
        invariant
            lo <= a <= b <= hi <= v.len(),
            strip_end_char(v@.subrange(a as int, b as int), c) == strip_end_char(
                v@.subrange(a as int, hi as int),
                c,
            ),
        decreases b - a,
    {
        assert(v@.subrange(a as int, b as int).drop_last() =~= v@.subrange(a as int, b - 1));
        b = b - 1;
    }
    proof {
        if !start_too {
            assert(a == lo);
        }
    }
    (a, b)
}

/// The last of `lines` that starts with `p`.
pub open spec fn last_with_prefix(lines: Seq<Seq<char>>, p: Seq<char>) -> Option<Seq<char>>
    decreases lines.len(),
{
    if lines.len() == 0 {
        None
    } else if starts_with_seq(lines.last(), p) {
        Some(lines.last())
    } else {
        last_with_prefix(lines.drop_last(), p)
    }
}

/// The first of `lines` that starts with `p`.
pub open spec fn first_with_prefix(lines: Seq<Seq<char>>, p: Seq<char>) -> Option<Seq<char>>
    decreases lines.len(),
{
    if lines.len() == 0 {
        None
    } else {
        match first_with_prefix(lines.drop_last(), p) {
            Some(l) => Some(l),
            None => if starts_with_seq(lines.last(), p) {
                Some(lines.last())
            } else {
                None
            },
        }
    }
}

/// How many of `lines` start with `p`.
pub open spec fn count_with_prefix(lines: Seq<Seq<char>>, p: Seq<char>) -> nat
    decreases lines.len(),
{
    if lines.len() == 0 {
        0
    } else {
        count_with_prefix(lines.drop_last(), p) + if starts_with_seq(lines.last(), p) {
            1nat
        } else {
            0nat
        }
    }
}

/// The index of the first or last line of `lines` that starts with `p`.
fn find_with_prefix(lines: &Vec<Vec<char>>, p: &Vec<char>, last: bool) -> (r: Option<usize>)
    ensures
        last ==> match last_with_prefix(views(lines@), p@) {
            Some(l) => r is Some && r->0 < lines@.len() && lines@[r->0 as int]@ == l,
            None => r is None,
        },
        !last ==> match first_with_prefix(views(lines@), p@) {
            Some(l) => r is Some && r->0 < lines@.len() && lines@[r->0 as int]@ == l,
            None => r is None,
        },
{
    let ghost ls = views(lines@);
    let mut found: Option<usize> = None;
    let mut i: usize = 0;
    assert(ls.take(0) =~= Seq::<Seq<char>>::empty());
    while i < lines.len()
        invariant
            i <= lines.len(),
            ls == views(lines@),
            last ==> match last_with_prefix(ls.take(i as int), p@) {
                Some(l) => found is Some && found->0 < i && lines@[found->0 as int]@ == l,
                None => found is None,
            },
            !last ==> match first_with_prefix(ls.take(i as int), p@) {
                Some(l) => found is Some && found->0 < i && lines@[found->0 as int]@ == l,
                None => found is None,
            },
        decreases lines.len() - i,
    {
        assert(ls.take(i + 1).drop_last() =~= ls.take(i as int));
        assert(ls.take(i + 1).last() == lines@[i as int]@);
        if matches_at(&lines[i], p, 0) {
            if last || found.is_none() {
                found = Some(i);
            }
        }
        i = i + 1;
    }
    assert(ls.take(lines.len() as int) =~= ls);
    found
}

/// The `n`-th word of `s`, if it has so many.
pub open spec fn nth_word(s: Seq<char>, n: int) -> Option<Seq<char>> {
    let w = words_seq(s);
    if 0 <= n < w.len() {
        Some(w[n])
    } else {
        None
    }
}

/// The `n`-th piece of `s` split at `c`, if there are so many.
pub open spec fn nth_piece(s: Seq<char>, c: char, n: int) -> Option<Seq<char>> {
    let p = split_seq(s, c);
    if 0 <= n < p.len() {
        Some(p[n])
    } else {
        None
    }
}

/// The given text, or "Unknown" when there is none.
pub open spec fn or_unknown(s: Option<Seq<char>>) -> Seq<char> {
    match s {
        Some(t) => t,
        None => "Unknown"@,
    }
}

// ---------------------------------------------------------------------------
// Linux sources
// ---------------------------------------------------------------------------

/// The system's name from the text of `/etc/os-release`: the value of the last
/// `PRETTY_NAME=` line, up to a further `=`, without surrounding quotes.
pub open spec fn pretty_name_spec(os_release: Seq<char>) -> Option<Seq<char>> {
    match last_with_prefix(lines_seq(os_release), "PRETTY_NAME="@) {
        Some(l) => Some(trim_char_seq(or_unknown(nth_piece(l, '=', 1)), '"')),
        None => None,
    }
}

/// The system's name from `/etc/os-release`, when it gives one.
pub fn os_pretty_name(os_release: &str) -> (r: Option<String>)
    ensures
        opt_view(r) == pretty_name_spec(os_release@),
{
    let text = chars_of(os_release);
    let lines = lines_of(&text);
    let key = chars_of("PRETTY_NAME=");
    match find_with_prefix(&lines, &key, true) {
        Some(i) => {
            let line = &lines[i];
            let pieces = split_chars(line, 0, line.len(), '=');
            assert(line@.subrange(0, line@.len() as int) =~= line@);
            let value = if pieces.len() > 1 {
                copy_chars(&pieces[1])
            } else {
                chars_of("Unknown")
            };
            let (a, b) = strip_char_bounds(&value, 0, value.len(), '"', true);
            assert(value@.subrange(0, value@.len() as int) =~= value@);
            Some(string_of_range(&value, a, b))
        },
        None => None,
    }
}

/// The `n`-th word of `s`, or "Unknown".
fn nth_word_or_unknown(s: &str, n: usize) -> (r: String)
    ensures
        r@ == or_unknown(nth_word(s@, n as int)),
{
    let v = chars_of(s);
    let w = words_of(&v, 0, v.len());
    assert(v@.subrange(0, v@.len() as int) =~= v@);
    if n < w.len() {
        string_of(&w[n])
    } else {
        String::from_str("Unknown")
    }
}

/// The kernel release from the text of `/proc/version`: its third word.
pub fn kernel_release(proc_version: &str) -> (r: String)
    ensures
        r@ == or_unknown(nth_word(proc_version@, 2)),
{
    nth_word_or_unknown(proc_version, 2)
}

/// The whole seconds of uptime from the text of `/proc/uptime`: the number before the
/// first dot, when it is one.
pub open spec fn uptime_seconds_spec(proc_uptime: Seq<char>) -> Option<nat> {
    parse_unsigned_seq(split_seq(proc_uptime, '.')[0])
}

/// The whole seconds of uptime from `/proc/uptime`, when they can be read as a `u64`.
pub fn uptime_seconds(proc_uptime: &str) -> (r: Option<u64>)
    ensures
        match uptime_seconds_spec(proc_uptime@) {
            Some(n) => if n <= u64::MAX {
                r == Some(n as u64)
            } else {
                r is None
            },
            None => r is None,
        },
{
    let v = chars_of(proc_uptime);
    let pieces = split_chars(&v, 0, v.len(), '.');
    assert(v@.subrange(0, v@.len() as int) =~= v@);
    let first = &pieces[0];
    let r = parse_unsigned(first, 0, first.len(), u64::MAX);
    assert(first@.subrange(0, first@.len() as int) =~= first@);
    r
}

/// Uptime in hours and the remaining minutes.
pub open spec fn uptime_parts(seconds: nat) -> (nat, nat) {
    (seconds / 3600, (seconds % 3600) / 60)
}

/// Uptime as the launcher shows it: hours, then the minutes of the last hour.
pub open spec fn uptime_text_spec(seconds: nat) -> Seq<char> {
    let (h, m) = uptime_parts(seconds);
    decimal_seq(h) + "h "@ + decimal_seq(m) + "m"@
}

/// The uptime text for `seconds` of uptime.
pub fn format_uptime(seconds: u64) -> (r: String)
    ensures
        r@ == uptime_text_spec(seconds as nat),
{
    let mut s = String::new();
    push_decimal(&mut s, seconds / 3600);
    s.append("h ");
    push_decimal(&mut s, (seconds % 3600) / 60);
    s.append("m");
    s
}

/// The hours and minutes shown account for the uptime to the minute: they make up at
/// most the uptime, and less than a minute is left out.
pub proof fn lemma_uptime_parts(seconds: nat)
    ensures
        uptime_parts(seconds).1 < 60,
        uptime_parts(seconds).0 * 3600 + uptime_parts(seconds).1 * 60 <= seconds,
        seconds < uptime_parts(seconds).0 * 3600 + uptime_parts(seconds).1 * 60 + 60,
{
    let h = seconds / 3600;
    let r = seconds % 3600;
    let m = r / 60;
    assert(seconds == h * 3600 + r) by (nonlinear_arith)
        requires
            h == seconds / 3600,
            r == seconds % 3600,
    ;
    assert(r == m * 60 + r % 60) by (nonlinear_arith)
        requires
            m == r / 60,
    ;
    assert(r < 3600);
    assert(m < 60) by (nonlinear_arith)
        requires
            m == r / 60,
            r < 3600,
    ;
}

/// The load averages from the text of `/proc/loadavg`: its first three words, separated
/// by spaces; none when it has no words.
pub open spec fn load_average_spec(proc_loadavg: Seq<char>) -> Option<Seq<char>> {
    let w = words_seq(proc_loadavg);
    if w.len() == 0 {
        None
    } else {
        Some(w[0] + " "@ + w[1] + " "@ + w[2])
    }
}

/// The load averages from `/proc/loadavg`. A text with one or two words is not accepted
/// (there are no three to show).
pub fn load_average(proc_loadavg: &str) -> (r: Option<String>)
    requires
        words_seq(proc_loadavg@).len() == 0 || words_seq(proc_loadavg@).len() >= 3,
    ensures
        opt_view(r) == load_average_spec(proc_loadavg@),
{
    let v = chars_of(proc_loadavg);
    let w = words_of(&v, 0, v.len());
    assert(v@.subrange(0, v@.len() as int) =~= v@);
    if w.len() == 0 {
        return None;
    }
    let mut s = string_of(&w[0]);
    s.append(" ");
    let w1 = string_of(&w[1]);
    s.append(w1.as_str());
    s.append(" ");
    let w2 = string_of(&w[2]);
    s.append(w2.as_str());
    Some(s)
}

/// The number of processors listed in the text of `/proc/cpuinfo`.
pub fn cpu_core_count(cpuinfo: &str) -> (r: usize)
    ensures
        r == count_with_prefix(lines_seq(cpuinfo@), "processor"@),
{
    let text = chars_of(cpuinfo);
    let lines = lines_of(&text);
    let ghost ls = views(lines@);
    let key = chars_of("processor");
    let mut n: usize = 0;
    let mut i: usize = 0;
    assert(ls.take(0) =~= Seq::<Seq<char>>::empty());
    while i < lines.len()
        invariant
            i <= lines.len(),
            ls == views(lines@),
            key@ == "processor"@,
            n == count_with_prefix(ls.take(i as int), "processor"@),
            n <= i,
        decreases lines.len() - i,
    {
        assert(ls.take(i + 1).drop_last() =~= ls.take(i as int));
        assert(ls.take(i + 1).last() == lines@[i as int]@);
        if matches_at(&lines[i], &key, 0) {
            n = n + 1;
        }
        i = i + 1;
    }
    assert(ls.take(lines.len() as int) =~= ls);
    n
}

/// The processor's model name from the text of `/proc/cpuinfo`: what follows the first
/// colon of the first `model name` line, trimmed; "Unknown" without such a line or colon.
pub open spec fn cpu_model_spec(cpuinfo: Seq<char>) -> Seq<char> {
    let value = match first_with_prefix(lines_seq(cpuinfo), "model name"@) {
        Some(l) => nth_piece(l, ':', 1),
        None => None,
    };
    trim_seq(or_unknown(value))
}

/// The processor's model name from `/proc/cpuinfo`.
pub fn cpu_model(cpuinfo: &str) -> (r: String)
    ensures
        r@ == cpu_model_spec(cpuinfo@),
{
    let text = chars_of(cpuinfo);
    let lines = lines_of(&text);
    let key = chars_of("model name");
    let value = match find_with_prefix(&lines, &key, false) {
        Some(i) => {
            let line = &lines[i];
            let pieces = split_chars(line, 0, line.len(), ':');
            assert(line@.subrange(0, line@.len() as int) =~= line@);
            if pieces.len() > 1 {
                copy_chars(&pieces[1])
            } else {
                chars_of("Unknown")
            }
        },
        None => chars_of("Unknown"),
    };
    let (a, b) = trim_bounds(&value, 0, value.len());
    assert(value@.subrange(0, value@.len() as int) =~= value@);
    string_of_range(&value, a, b)
}

/// The value of the field `key` in the text of `/proc/meminfo`: the second word of the
/// first line that starts with `key`.
pub open spec fn meminfo_field_spec(meminfo: Seq<char>, key: Seq<char>) -> Option<Seq<char>> {
    match first_with_prefix(lines_seq(meminfo), key) {
        Some(l) => nth_word(l, 1),
        None => None,
    }
}

/// The value of the field `key` in `/proc/meminfo`, as text.
pub fn meminfo_field(meminfo: &str, key: &str) -> (r: Option<String>)
    ensures
        opt_view(r) == meminfo_field_spec(meminfo@, key@),
{
    let text = chars_of(meminfo);
    let lines = lines_of(&text);
    let k = chars_of(key);
    match find_with_prefix(&lines, &k, false) {
        Some(i) => {
            let line = &lines[i];
            let w = words_of(line, 0, line.len());
            assert(line@.subrange(0, line@.len() as int) =~= line@);
            if w.len() > 1 {
                Some(string_of(&w[1]))
            } else {
                None
            }
        },
        None => None,
    }
}

/// A disk's size, free space and use.
pub struct DiskUsage {
    pub total: String,
    pub free: String,
    pub percent: u32,
}

/// The use in percent from the use column of `df`: the number before the percent signs,
/// zero when it is no `u32`.
pub open spec fn percent_spec(column: Seq<char>) -> nat {
    match parse_unsigned_seq(strip_end_char(column, '%')) {
        Some(n) => if n <= u32::MAX {
            n
        } else {
            0
        },
        None => 0,
    }
}

/// The disk usage that `df -h /` prints: from the columns of its second line, when it
/// has at least five: size (second), free space (fourth) and use (fifth).
pub open spec fn disk_usage_spec(df_output: Seq<char>) -> Option<(Seq<char>, Seq<char>, nat)> {
    let lines = lines_seq(df_output);
    if lines.len() > 1 && words_seq(lines[1]).len() >= 5 {
        let w = words_seq(lines[1]);
        Some((w[1], w[3], percent_spec(w[4])))
    } else {
        None
    }
}

/// The disk usage in the output of `df -h /`.
pub fn disk_usage(df_output: &str) -> (r: Option<DiskUsage>)
    ensures
        match disk_usage_spec(df_output@) {
            Some((t, f, p)) => r is Some && r->0.total@ == t && r->0.free@ == f && r->0.percent == p,
            None => r is None,
        },
{
    let text = chars_of(df_output);
    let lines = lines_of(&text);
    if lines.len() < 2 {
        return None;
    }
    let line = &lines[1];
    let w = words_of(line, 0, line.len());
    assert(line@.subrange(0, line@.len() as int) =~= line@);
    if w.len() < 5 {
        return None;
    }
    let col = &w[4];
    let (a, b) = strip_char_bounds(col, 0, col.len(), '%', false);
    assert(col@.subrange(0, col@.len() as int) =~= col@);
    let percent = match parse_unsigned(col, a, b, 0xffff_ffff) {
        Some(n) => n as u32,
        None => 0,
    };
    Some(DiskUsage { total: string_of(&w[1]), free: string_of(&w[3]), percent })
}

/// A line of `sensors` output that reports a processor temperature.
pub open spec fn is_cpu_temperature_line(l: Seq<char>) -> bool {
    contains_seq(l, "Core 0"@) || contains_seq(l, "CPU"@)
}

/// The first of `lines` that reports a processor temperature.
pub open spec fn first_temperature_line(lines: Seq<Seq<char>>) -> Option<Seq<char>>
    decreases lines.len(),
{
    if lines.len() == 0 {
        None
    } else {
        match first_temperature_line(lines.drop_last()) {
            Some(l) => Some(l),
            None => if is_cpu_temperature_line(lines.last()) {
                Some(lines.last())
            } else {
                None
            },
        }
    }
}

/// The processor temperature that `sensors` prints: on the first line that mentions
/// "Core 0" or "CPU", what follows the first colon up to a degree sign, trimmed.
pub open spec fn temperature_spec(sensors: Seq<char>) -> Option<Seq<char>> {
    match first_temperature_line(lines_seq(sensors)) {
        Some(l) => match nth_piece(l, ':', 1) {
            Some(after) => Some(trim_seq(split_seq(after, '°')[0])),
            None => None,
        },
        None => None,
    }
}

proof fn lemma_no_temperature_line(ls: Seq<Seq<char>>)
    requires
        forall|j: int| 0 <= j < ls.len() ==> !is_cpu_temperature_line(#[trigger] ls[j]),
    ensures
        first_temperature_line(ls) is None,
    decreases ls.len(),
{
    if ls.len() > 0 {
        let d = ls.drop_last();
        assert forall|j: int| 0 <= j < d.len() implies !is_cpu_temperature_line(#[trigger] d[j]) by {
            assert(d[j] == ls[j]);
        }
        lemma_no_temperature_line(d);
        assert(!is_cpu_temperature_line(ls[ls.len() - 1]));
    }
}

proof fn lemma_first_temperature_line_at(ls: Seq<Seq<char>>, k: int)
    requires
        0 <= k < ls.len(),
        is_cpu_temperature_line(ls[k]),
        forall|j: int| 0 <= j < k ==> !is_cpu_temperature_line(#[trigger] ls[j]),
    ensures
        first_temperature_line(ls) == Some(ls[k]),
    decreases ls.len(),
{
    let d = ls.drop_last();
    if k == ls.len() - 1 {
        assert forall|j: int| 0 <= j < d.len() implies !is_cpu_temperature_line(#[trigger] d[j]) by {
            assert(d[j] == ls[j]);
        }
        lemma_no_temperature_line(d);
    } else {
        assert(d[k] == ls[k]);
        assert forall|j: int| 0 <= j < k implies !is_cpu_temperature_line(#[trigger] d[j]) by {
            assert(d[j] == ls[j]);
        }
        lemma_first_temperature_line_at(d, k);
    }
}

/// The temperature is read from the first line of the `sensors` output that mentions
/// "Core 0" or "CPU": when that line is a label, a colon, and a reading up to a degree
/// sign, the temperature is the reading, trimmed; for example `CPU:  +52.0°C` reads
/// "+52.0".
pub proof fn lemma_cpu_temperature_read(
    sensors: Seq<char>,
    k: int,
    label: Seq<char>,
    t: Seq<char>,
    rest: Seq<char>,
)
    requires
        0 <= k < lines_seq(sensors).len(),
        lines_seq(sensors)[k] == label + seq![':'] + t + seq!['°'] + rest,
        contains_seq(lines_seq(sensors)[k], "Core 0"@) || contains_seq(
            lines_seq(sensors)[k],
            "CPU"@,
        ),
        forall|j: int|
            0 <= j < k ==> !contains_seq(#[trigger] lines_seq(sensors)[j], "Core 0"@)
                && !contains_seq(lines_seq(sensors)[j], "CPU"@),
        free_of(label, ':'),
        free_of(t, ':'),
        free_of(t, '°'),
    ensures
        temperature_spec(sensors) == Some(trim_seq(t)),
{
    let ls = lines_seq(sensors);
    lemma_first_temperature_line_at(ls, k);
    let u = t + seq!['°'] + rest;
    let l = ls[k];
    assert(l == label + seq![':'] + u);
    lemma_split_concat(label, ':', u);
    lemma_split_free(label, ':');
    lemma_split_seq_nonempty(u, ':');
    assert(split_seq(l, ':')[1] == split_seq(u, ':')[0]);
    let j = lemma_split_first_piece(u, ':');
    assert(u[t.len() as int] == '°');
    if j <= t.len() {
        assert(u[j] == t[j]);
    }
    let after = u.take(j);
    assert(after[t.len() as int] == '°');
    let j2 = lemma_split_first_piece(after, '°');
    if j2 < t.len() {
        assert(after[j2] == t[j2]);
    }
    assert(after.take(t.len() as int) =~= t);
}

/// The processor temperature in the output of `sensors`.
pub fn temperature(sensors: &str) -> (r: Option<String>)
    ensures
        opt_view(r) == temperature_spec(sensors@),
{
    let text = chars_of(sensors);
    let lines = lines_of(&text);
    let ghost ls = views(lines@);
    let core = chars_of("Core 0");
    let cpu = chars_of("CPU");
    let mut found: Option<usize> = None;
    let mut i: usize = 0;
    assert(ls.take(0) =~= Seq::<Seq<char>>::empty());
    while i < lines.len()
        invariant
            i <= lines.len(),
            ls == views(lines@),
            core@ == "Core 0"@,
            cpu@ == "CPU"@,
            match first_temperature_line(ls.take(i as int)) {
                Some(l) => found is Some && found->0 < i && lines@[found->0 as int]@ == l,
                None => found is None,
            },
        decreases lines.len() - i,
    {
        assert(ls.take(i + 1).drop_last() =~= ls.take(i as int));
        assert(ls.take(i + 1).last() == lines@[i as int]@);
        if found.is_none() && (contains_chars(&lines[i], &core) || contains_chars(&lines[i], &cpu)) {
            found = Some(i);
        }
        i = i + 1;
    }
    assert(ls.take(lines.len() as int) =~= ls);
    match found {
        Some(k) => {
            let line = &lines[k];
            let pieces = split_chars(line, 0, line.len(), ':');
            assert(line@.subrange(0, line@.len() as int) =~= line@);
            if pieces.len() < 2 {
                return None;
            }
            let after = &pieces[1];
            let parts = split_chars(after, 0, after.len(), '°');
            assert(after@.subrange(0, after@.len() as int) =~= after@);
            let first = &parts[0];
            let (a, b) = trim_bounds(first, 0, first.len());
            assert(first@.subrange(0, first@.len() as int) =~= first@);
            Some(string_of_range(first, a, b))
        },
        None => None,
    }
}

// ---------------------------------------------------------------------------
// Windows sources
// ---------------------------------------------------------------------------

/// The Windows version from the output of `cmd /c ver`: its first line, trimmed.
pub open spec fn windows_version_spec(ver_output: Seq<char>) -> Seq<char> {
    let lines = lines_seq(ver_output);
    trim_seq(
        if lines.len() > 0 {
            lines[0]
        } else {
            "Unknown"@
        },
    )
}

/// The Windows version from the output of `cmd /c ver`.
pub fn windows_version(ver_output: &str) -> (r: String)
    ensures
        r@ == windows_version_spec(ver_output@),
{
    let text = chars_of(ver_output);
    let lines = lines_of(&text);
    let first = if lines.len() > 0 {
        copy_chars(&lines[0])
    } else {
        chars_of("Unknown")
    };
    let (a, b) = trim_bounds(&first, 0, first.len());
    assert(first@.subrange(0, first@.len() as int) =~= first@);
    string_of_range(&first, a, b)
}

/// A line of `wmic` output that holds data: not empty and not the header naming `header`.
pub open spec fn is_data_line(l: Seq<char>, header: Seq<char>) -> bool {
    l.len() > 0 && !contains_seq(l, header)
}

/// The processor name in `wmic cpu get name /format:csv` output: the second comma-separated
/// field, trimmed, of the first data line with at least two fields.
pub open spec fn wmic_cpu_name_spec(lines: Seq<Seq<char>>) -> Option<Seq<char>>
    decreases lines.len(),
{
    if lines.len() == 0 {
        None
    } else {
        match wmic_cpu_name_spec(lines.drop_last()) {
            Some(n) => Some(n),
            None => {
                let l = lines.last();
                if is_data_line(l, "Name"@) && split_seq(l, ',').len() >= 2 {
                    Some(trim_seq(split_seq(l, ',')[1]))
                } else {
                    None
                }
            },
        }
    }
}

/// The processor name shown on Windows: the name that `wmic` gives, unless it gives none
/// or "Unknown", then "Windows CPU".
pub open spec fn windows_cpu_name_spec(wmic_output: Option<Seq<char>>) -> Seq<char> {
    let name = match wmic_output {
        Some(o) => wmic_cpu_name_spec(lines_seq(o)),
        None => None,
    };
    match name {
        Some(n) => if n == "Unknown"@ {
            "Windows CPU"@
        } else {
            n
        },
        None => "Windows CPU"@,
    }
}

/// The processor name shown on Windows, from the output of `wmic cpu get name`, when the
/// command ran.
pub fn windows_cpu_name(wmic_output: Option<&str>) -> (r: String)
    ensures
        r@ == windows_cpu_name_spec(
            match wmic_output {
                Some(o) => Some(o@),
                None => None,
            },
        ),
{
    let mut name: Option<Vec<char>> = None;
    if let Some(o) = wmic_output {
        let text = chars_of(o);
        let lines = lines_of(&text);
        let ghost ls = views(lines@);
        let header = chars_of("Name");
        let mut i: usize = 0;
        assert(ls.take(0) =~= Seq::<Seq<char>>::empty());
        while i < lines.len()
            invariant
                i <= lines.len(),
                ls == views(lines@),
                header@ == "Name"@,
                match wmic_cpu_name_spec(ls.take(i as int)) {
                    Some(n) => name is Some && name->0@ == n,
                    None => name is None,
                },
            decreases lines.len() - i,
        {
            assert(ls.take(i + 1).drop_last() =~= ls.take(i as int));
            assert(ls.take(i + 1).last() == lines@[i as int]@);
            if name.is_none() {
                let line = &lines[i];
                if line.len() > 0 && !contains_chars(line, &header) {
                    let parts = split_chars(line, 0, line.len(), ',');
                    assert(line@.subrange(0, line@.len() as int) =~= line@);
                    if parts.len() >= 2 {
                        let p = &parts[1];
                        let (a, b) = trim_bounds(p, 0, p.len());
                        assert(p@.subrange(0, p@.len() as int) =~= p@);
                        let mut t: Vec<char> = Vec::new();
                        let mut k = a;
                        while k < b
                            invariant
                                a <= k <= b <= p.len(),
                                t@ == p@.subrange(a as int, k as int),
                            decreases b - k,
                        {
                            t.push(p[k]);
                            k = k + 1;
                            assert(t@ =~= p@.subrange(a as int, k as int));
                        }
                        name = Some(t);
                    }
                }
            }
            i = i + 1;
        }
        assert(ls.take(lines.len() as int) =~= ls);
    }
    match name {
        Some(n) => {
            let unknown = chars_of("Unknown");
            if crate::text::same_chars(&n, &unknown) {
                String::from_str("Windows CPU")
            } else {
                string_of(&n)
            }
        },
        None => String::from_str("Windows CPU"),
    }
}

/// The rows of `wmic pagefile get AllocatedBaseSize,CurrentUsage` output that may hold
/// numbers: the first two words of each data line with at least two words.
pub open spec fn pagefile_rows_spec(lines: Seq<Seq<char>>) -> Seq<(Seq<char>, Seq<char>)>
    decreases lines.len(),
{
    if lines.len() == 0 {
        Seq::empty()
    } else {
        let r = pagefile_rows_spec(lines.drop_last());
        let l = lines.last();
        if is_data_line(l, "AllocatedBaseSize"@) && words_seq(l).len() >= 2 {
            r.push((words_seq(l)[0], words_seq(l)[1]))
        } else {
            r
        }
    }
}

/// The candidate rows of the page file listing that `wmic` prints, in order.
pub fn pagefile_rows(wmic_output: &str) -> (r: Vec<(String, String)>)
    ensures
        r@.map_values(|x: (String, String)| (x.0@, x.1@)) == pagefile_rows_spec(lines_seq(wmic_output@)),
{
    let text = chars_of(wmic_output);
    let lines = lines_of(&text);
    let ghost ls = views(lines@);
    let header = chars_of("AllocatedBaseSize");
    let mut rows: Vec<(String, String)> = Vec::new();
    let mut i: usize = 0;
    assert(ls.take(0) =~= Seq::<Seq<char>>::empty());
    while i < lines.len()
        invariant
            i <= lines.len(),
            ls == views(lines@),
            header@ == "AllocatedBaseSize"@,
            rows@.map_values(|x: (String, String)| (x.0@, x.1@)) == pagefile_rows_spec(ls.take(i as int)),
        decreases lines.len() - i,
    {
        assert(ls.take(i + 1).drop_last() =~= ls.take(i as int));
        assert(ls.take(i + 1).last() == lines@[i as int]@);
        let line = &lines[i];
        if line.len() > 0 && !contains_chars(line, &header) {
            let w = words_of(line, 0, line.len());
            assert(line@.subrange(0, line@.len() as int) =~= line@);
            if w.len() >= 2 {
                let ghost before = rows@;
                let row = (string_of(&w[0]), string_of(&w[1]));
                rows.push(row);
                assert(rows@.map_values(|x: (String, String)| (x.0@, x.1@)) =~= before.map_values(
                    |x: (String, String)| (x.0@, x.1@),
                ).push((w@[0]@, w@[1]@)));
            }
        }
        i = i + 1;
    }
    assert(ls.take(lines.len() as int) =~= ls);
    rows
}

// ---------------------------------------------------------------------------
// The overview
// ---------------------------------------------------------------------------

/// What the launcher shows about the system. The memory fields are filled in where the
/// numbers are read; they hold "?" and 0 until then.
pub struct SystemInfo {
    pub os: String,
    pub kernel: String,
    pub hostname: String,
    pub uptime: String,
    pub loadavg: String,
    pub cpu_name: String,
    pub cpu_cores: u64,
    pub cpu_usage: String,
    pub ram_total: String,
    pub ram_available: String,
    pub ram_percent: u32,
    pub swap_total: String,
    pub swap_free: String,
    pub swap_percent: u32,
    pub disk_total: String,
    pub disk_free: String,
    pub disk_percent: u32,
    pub network: String,
    pub temperature: String,
}

/// The texts of an optional text.
pub open spec fn opt_str(o: Option<&str>) -> Option<Seq<char>> {
    match o {
        Some(s) => Some(s@),
        None => None,
    }
}

/// The overview before anything is known.
pub open spec fn is_unknown_info(i: SystemInfo) -> bool {
    &&& i.os@ == "Unknown"@
    &&& i.kernel@ == "Unknown"@
    &&& i.hostname@ == "Unknown"@
    &&& i.uptime@ == "0h 0m"@
    &&& i.loadavg@ == "0.00 0.00 0.00"@
    &&& i.cpu_name@ == "Unknown"@
    &&& i.cpu_cores == 0
    &&& i.cpu_usage@ == "?%"@
    &&& i.ram_total@ == "?"@
    &&& i.ram_available@ == "?"@
    &&& i.ram_percent == 0
    &&& i.swap_total@ == "?"@
    &&& i.swap_free@ == "?"@
    &&& i.swap_percent == 0
    &&& i.disk_total@ == "?"@
    &&& i.disk_free@ == "?"@
    &&& i.disk_percent == 0
    &&& i.network@ == "Bağlı"@
    &&& i.temperature@ == "—"@
}

/// The overview before anything is known.
pub fn unknown_system_info() -> (r: SystemInfo)
    ensures
        is_unknown_info(r),
{
    SystemInfo {
        os: String::from_str("Unknown"),
        kernel: String::from_str("Unknown"),
        hostname: String::from_str("Unknown"),
        uptime: String::from_str("0h 0m"),
        loadavg: String::from_str("0.00 0.00 0.00"),
        cpu_name: String::from_str("Unknown"),
        cpu_cores: 0,
        cpu_usage: String::from_str("?%"),
        ram_total: String::from_str("?"),
        ram_available: String::from_str("?"),
        ram_percent: 0,
        swap_total: String::from_str("?"),
        swap_free: String::from_str("?"),
        swap_percent: 0,
        disk_total: String::from_str("?"),
        disk_free: String::from_str("?"),
        disk_percent: 0,
        network: String::from_str("Bağlı"),
        temperature: String::from_str("—"),
    }
}

/// The overview on Linux, from the texts of `/etc/os-release`, `/proc/version`,
/// `/etc/hostname`, `/proc/uptime`, `/proc/loadavg` and `/proc/cpuinfo` and the outputs of
/// `df -h /` and `sensors`, each when it could be read; memory is left unknown. A load
/// average text with one or two words is not accepted.
pub fn linux_system_info(
    os_release: Option<&str>,
    proc_version: Option<&str>,
    hostname: Option<&str>,
    proc_uptime: Option<&str>,
    proc_loadavg: Option<&str>,
    cpuinfo: Option<&str>,
    df_output: Option<&str>,
    sensors_output: Option<&str>,
) -> (r: SystemInfo)
    requires
        match proc_loadavg {
            Some(l) => words_seq(l@).len() == 0 || words_seq(l@).len() >= 3,
            None => true,
        },
    ensures
        r.os@ == match os_release {
            Some(t) => or_unknown(pretty_name_spec(t@)),
            None => "Unknown"@,
        },
        r.kernel@ == match proc_version {
            Some(t) => or_unknown(nth_word(t@, 2)),
            None => "Unknown"@,
        },
        r.hostname@ == match hostname {
            Some(t) => trim_seq(t@),
            None => "Unknown"@,
        },
        r.uptime@ == match proc_uptime {
            Some(t) => match uptime_seconds_spec(t@) {
                Some(n) => if n <= u64::MAX {
                    uptime_text_spec(n)
                } else {
                    "0h 0m"@
                },
                None => "0h 0m"@,
            },
            None => "0h 0m"@,
        },
        r.loadavg@ == match proc_loadavg {
            Some(t) => match load_average_spec(t@) {
                Some(l) => l,
                None => "0.00 0.00 0.00"@,
            },
            None => "0.00 0.00 0.00"@,
        },
        r.cpu_name@ == match cpuinfo {
            Some(t) => cpu_model_spec(t@),
            None => "Unknown"@,
        },
        r.cpu_cores == match cpuinfo {
            Some(t) => count_with_prefix(lines_seq(t@), "processor"@),
            None => 0,
        },
        match df_output {
            Some(t) => match disk_usage_spec(t@) {
                Some((total, free, p)) => r.disk_total@ == total && r.disk_free@ == free
                    && r.disk_percent == p,
                None => r.disk_total@ == "?"@ && r.disk_free@ == "?"@ && r.disk_percent == 0,
            },
            None => r.disk_total@ == "?"@ && r.disk_free@ == "?"@ && r.disk_percent == 0,
        },
        r.temperature@ == match sensors_output {
            Some(t) => match temperature_spec(t@) {
                Some(x) => x,
                None => "—"@,
            },
            None => "—"@,
        },
        r.cpu_usage@ == "?%"@,
        r.ram_total@ == "?"@,
        r.ram_available@ == "?"@,
        r.ram_percent == 0,
        r.swap_total@ == "?"@,
        r.swap_free@ == "?"@,
        r.swap_percent == 0,
        r.network@ == "Bağlı"@,
{
    let mut info = unknown_system_info();
    if let Some(t) = os_release {
        if let Some(name) = os_pretty_name(t) {
            info.os = name;
        }
    }
    if let Some(t) = proc_version {
        info.kernel = kernel_release(t);
    }
    if let Some(t) = hostname {
        info.hostname = crate::text::trim(t);
    }
    if let Some(t) = proc_uptime {
        if let Some(n) = uptime_seconds(t) {
            info.uptime = format_uptime(n);
        }
    }
    if let Some(t) = proc_loadavg {
        if let Some(l) = load_average(t) {
            info.loadavg = l;
        }
    }
    if let Some(t) = cpuinfo {
        let n = cpu_core_count(t);
        info.cpu_name = cpu_model(t);
        info.cpu_cores = n as u64;
    }
    if let Some(t) = df_output {
        if let Some(d) = disk_usage(t) {
            info.disk_total = d.total;
            info.disk_free = d.free;
            info.disk_percent = d.percent;
        }
    }
    if let Some(t) = sensors_output {
        if let Some(x) = temperature(t) {
            info.temperature = x;
        }
    }
    info
}

/// The overview on Windows, from the output of `cmd /c ver` (when it ran), the host name
/// (when it could be read), the milliseconds since start, the number of processors and
/// the output of `wmic cpu get name` (when it ran); memory and disk are left unknown.
pub fn windows_system_info(
    ver_output: Option<&str>,
    hostname: Option<String>,
    uptime_ms: u64,
    cores: u64,
    wmic_cpu_output: Option<&str>,
) -> (r: SystemInfo)
    ensures
        r.os@ == "Windows"@,
        r.kernel@ == match ver_output {
            Some(t) => windows_version_spec(t@),
            None => "Unknown"@,
        },
        r.hostname@ == match hostname {
            Some(h) => h@,
            None => "Unknown"@,
        },
        r.uptime@ == uptime_text_spec((uptime_ms / 1000) as nat),
        r.loadavg@ == "0.00 0.00 0.00"@,
        r.cpu_name@ == windows_cpu_name_spec(opt_str(wmic_cpu_output)),
        r.cpu_cores == cores,
        r.cpu_usage@ == "?%"@,
        r.ram_total@ == "?"@,
        r.ram_available@ == "?"@,
        r.ram_percent == 0,
        r.swap_total@ == "?"@,
        r.swap_free@ == "?"@,
        r.swap_percent == 0,
        r.disk_total@ == "?"@,
        r.disk_free@ == "?"@,
        r.disk_percent == 0,
        r.network@ == "Bağlı"@,
        r.temperature@ == "—"@,
{
    let mut info = unknown_system_info();
    info.os = String::from_str("Windows");
    if let Some(t) = ver_output {
        info.kernel = windows_version(t);
    }
    if let Some(h) = hostname {
        info.hostname = h;
    }
    info.uptime = format_uptime(uptime_ms / 1000);
    info.cpu_cores = cores;
    info.cpu_name = windows_cpu_name(wmic_cpu_output);
    info
}

/// `a` and `b` agree on every field but the three swap fields.
pub open spec fn same_but_swap(a: SystemInfo, b: SystemInfo) -> bool {
    &&& a.os@ == b.os@
    &&& a.kernel@ == b.kernel@
    &&& a.hostname@ == b.hostname@
    &&& a.uptime@ == b.uptime@
    &&& a.loadavg@ == b.loadavg@
    &&& a.cpu_name@ == b.cpu_name@
    &&& a.cpu_cores == b.cpu_cores
    &&& a.cpu_usage@ == b.cpu_usage@
    &&& a.ram_total@ == b.ram_total@
    &&& a.ram_available@ == b.ram_available@
    &&& a.ram_percent == b.ram_percent
    &&& a.disk_total@ == b.disk_total@
    &&& a.disk_free@ == b.disk_free@
    &&& a.disk_percent == b.disk_percent
    &&& a.network@ == b.network@
    &&& a.temperature@ == b.temperature@
}

/// On Windows a page file that could not be read counts as none: when the swap size is
/// still unknown ("?"), it becomes "0 GB" with "0 GB" free and 0 percent used. Nothing
/// else changes.
pub fn settle_unknown_swap(info: &mut SystemInfo)
    ensures
        same_but_swap(*old(info), *final(info)),
        old(info).swap_total@ == "?"@ ==> final(info).swap_total@ == "0 GB"@ && final(info).swap_free@
            == "0 GB"@ && final(info).swap_percent == 0,
        old(info).swap_total@ != "?"@ ==> final(info).swap_total@ == old(info).swap_total@
            && final(info).swap_free@ == old(info).swap_free@ && final(info).swap_percent == old(
            info,
        ).swap_percent,
{
    if crate::text::same_text(info.swap_total.as_str(), "?") {
        info.swap_total = String::from_str("0 GB");
        info.swap_free = String::from_str("0 GB");
        info.swap_percent = 0;
    }
}

} // verus!
