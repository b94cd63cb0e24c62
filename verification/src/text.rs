use vstd::prelude::*;

verus! {

/// Gives `String::push` the contract its documentation states: the character is appended
/// at the end of the string.
pub assume_specification[ String::push ](string: &mut String, ch: char)
    ensures
        final(string)@ == old(string)@.push(ch),
;

// ---------------------------------------------------------------------------
// Case conversion, by the standard library
// ---------------------------------------------------------------------------

/// The text that `str::to_lowercase` gives for a text: each character replaced by its
/// lowercase mapping of the Unicode Character Database (which may be several characters).
pub uninterp spec fn lowercase_of(s: Seq<char>) -> Seq<char>;

/// The text that `str::to_uppercase` gives for a text: each character replaced by its
/// uppercase mapping of the Unicode Character Database (which may be several characters).
pub uninterp spec fn uppercase_of(s: Seq<char>) -> Seq<char>;

/// Every character of `s` is ASCII.
pub open spec fn is_ascii_text(s: Seq<char>) -> bool {
    forall|i: int| 0 <= i < s.len() ==> (#[trigger] s[i] as u32) < 0x80
}

/// The ASCII lowercase of `c`: `A` to `Z` become `a` to `z`, the rest stays.
pub open spec fn ascii_lower(c: char) -> char {
    if 'A' <= c && c <= 'Z' {
        ((c as u32) + 32) as char
    } else {
        c
    }
}

/// The ASCII uppercase of `c`: `a` to `z` become `A` to `Z`, the rest stays.
pub open spec fn ascii_upper(c: char) -> char {
    if 'a' <= c && c <= 'z' {
        ((c as u32) - 32) as char
    } else {
        c
    }
}

/// Calls `str::to_lowercase`. Claimed of it: the result is `lowercase_of` of the
/// argument, a function of the argument alone; on ASCII text, whose Unicode lowercase
/// mapping is the ASCII one, it lowers `A` to `Z` one for one; the empty text stays
/// empty. What the mapping does to other characters is left unsaid.
#[verifier::external_body]
pub fn to_lowercase(s: &str) -> (r: String)
    ensures
        r@ == lowercase_of(s@),
        is_ascii_text(s@) ==> r@ == s@.map_values(|c: char| ascii_lower(c)),
        s@.len() == 0 ==> r@.len() == 0,
{
    s.to_lowercase()
}

/// Calls `str::to_uppercase`. Claimed of it: the result is `uppercase_of` of the
/// argument, a function of the argument alone; on ASCII text, whose Unicode uppercase
/// mapping is the ASCII one, it raises `a` to `z` one for one; the empty text stays
/// empty. What the mapping does to other characters is left unsaid.
#[verifier::external_body]
pub fn to_uppercase(s: &str) -> (r: String)
    ensures
        r@ == uppercase_of(s@),
        is_ascii_text(s@) ==> r@ == s@.map_values(|c: char| ascii_upper(c)),
        s@.len() == 0 ==> r@.len() == 0,
{
    s.to_uppercase()
}

// ---------------------------------------------------------------------------
// Characters
// ---------------------------------------------------------------------------

/// The characters of `White_Space` in the Unicode Character Database, the set that
/// `char::is_whitespace` tests for.
pub open spec fn is_white_space(c: char) -> bool {
    ||| ('\u{9}' <= c && c <= '\u{d}')
    ||| c == ' '
    ||| c == '\u{85}'
    ||| c == '\u{a0}'
    ||| c == '\u{1680}'
    ||| ('\u{2000}' <= c && c <= '\u{200a}')
    ||| c == '\u{2028}'
    ||| c == '\u{2029}'
    ||| c == '\u{202f}'
    ||| c == '\u{205f}'
    ||| c == '\u{3000}'
}

/// Whether `c` is white space in the sense of Unicode.
pub fn is_whitespace(c: char) -> (r: bool)
    ensures
        r == is_white_space(c),
{
    ('\u{9}' <= c && c <= '\u{d}') || c == ' ' || c == '\u{85}' || c == '\u{a0}' || c
        == '\u{1680}' || ('\u{2000}' <= c && c <= '\u{200a}') || c == '\u{2028}' || c
        == '\u{2029}' || c == '\u{202f}' || c == '\u{205f}' || c == '\u{3000}'
}

/// An ASCII decimal digit, the set that `char::is_digit(10)` tests for.
pub open spec fn is_decimal_digit(c: char) -> bool {
    '0' <= c && c <= '9'
}

/// The value of an ASCII decimal digit.
pub open spec fn digit_value(c: char) -> nat {
    ((c as int) - ('0' as int)) as nat
}

/// The digit that stands for `d < 10`.
pub open spec fn digit_char(d: nat) -> char {
    (('0' as int) + d) as char
}

// ---------------------------------------------------------------------------
// Conversions between `str` and character vectors
// ---------------------------------------------------------------------------

/// The characters of `s`, in order.
pub fn chars_of(s: &str) -> (v: Vec<char>)
    ensures
        v@ == s@,
{
    let mut v: Vec<char> = Vec::new();
    for c in it: s.chars()
        invariant
            v@ == it.seq().take(it.index() as int),
    {
        v.push(c);
    }
    v
}

/// A string made of the characters `v[from..to]`.
pub fn string_of_range(v: &Vec<char>, from: usize, to: usize) -> (s: String)
    requires
        from <= to <= v.len(),
    ensures
        s@ == v@.subrange(from as int, to as int),
{
    let mut s = String::new();
    let mut i = from;
    while i < to
        invariant
            from <= i <= to <= v.len(),
            s@ == v@.subrange(from as int, i as int),
        decreases to - i,
    {
        s.push(v[i]);
        i = i + 1;
    }
    s
}

/// A string made of all the characters of `v`.
pub fn string_of(v: &Vec<char>) -> (s: String)
    ensures
        s@ == v@,
{
    let s = string_of_range(v, 0, v.len());
    assert(v@.subrange(0, v@.len() as int) =~= v@);
    s
}

// ---------------------------------------------------------------------------
// Trimming
// ---------------------------------------------------------------------------

/// `s` without its leading white space.
pub open spec fn trim_start_seq(s: Seq<char>) -> Seq<char>
    decreases s.len(),
{
    if s.len() > 0 && is_white_space(s[0]) {
        trim_start_seq(s.drop_first())
    } else {
        s
    }
}

/// `s` without its trailing white space.
pub open spec fn trim_end_seq(s: Seq<char>) -> Seq<char>
    decreases s.len(),
{
    if s.len() > 0 && is_white_space(s.last()) {
        trim_end_seq(s.drop_last())
    } else {
        s
    }
}

/// `s` without leading and trailing white space, as `str::trim` gives it.
pub open spec fn trim_seq(s: Seq<char>) -> Seq<char> {
    trim_end_seq(trim_start_seq(s))
}

/// `trim_end_seq(s)` is a prefix of `s` that does not end in white space.
pub proof fn lemma_trim_end_shape(s: Seq<char>)
    ensures
        trim_end_seq(s).len() <= s.len(),
        forall|i: int| 0 <= i < trim_end_seq(s).len() ==> #[trigger] trim_end_seq(s)[i] == s[i],
        trim_end_seq(s).len() > 0 ==> !is_white_space(trim_end_seq(s).last()),
        s.len() > 0 && !is_white_space(s.last()) ==> trim_end_seq(s) == s,
    decreases s.len(),
{
    if s.len() > 0 && is_white_space(s.last()) {
        lemma_trim_end_shape(s.drop_last());
    }
}

/// `trim_start_seq(s)` does not start with white space, and a text that does not start
/// with white space is its own `trim_start_seq`.
pub proof fn lemma_trim_start_shape(s: Seq<char>)
    ensures
        trim_start_seq(s).len() > 0 ==> !is_white_space(trim_start_seq(s)[0]),
        s.len() == 0 || !is_white_space(s[0]) ==> trim_start_seq(s) == s,
    decreases s.len(),
{
    if s.len() > 0 && is_white_space(s[0]) {
        lemma_trim_start_shape(s.drop_first());
    }
}

/// Trimming twice trims no more than trimming once.
pub proof fn lemma_trim_idempotent(s: Seq<char>)
    ensures
        trim_seq(trim_seq(s)) == trim_seq(s),
{
    let a = trim_start_seq(s);
    let u = trim_end_seq(a);
    lemma_trim_start_shape(s);
    lemma_trim_end_shape(a);
    if u.len() > 0 {
        assert(u[0] == a[0]);
    }
    lemma_trim_start_shape(u);
    lemma_trim_end_shape(u);
}

proof fn lemma_trim_start_trailing_space(p: Seq<char>)
    ensures
        trim_start_seq(p + seq![' ']) == trim_start_seq(p) + seq![' '] || (trim_start_seq(
            p + seq![' '],
        ).len() == 0 && trim_start_seq(p).len() == 0),
    decreases p.len(),
{
    let s = p + seq![' '];
    if p.len() == 0 {
        assert(is_white_space(s[0]));
        assert(s.drop_first() =~= Seq::<char>::empty());
        assert(trim_start_seq(s) == trim_start_seq(s.drop_first()));
        assert(trim_start_seq(s).len() == 0);
        assert(trim_start_seq(p).len() == 0);
    } else {
        assert(s[0] == p[0]);
        if is_white_space(p[0]) {
            assert(s.drop_first() =~= p.drop_first() + seq![' ']);
            lemma_trim_start_trailing_space(p.drop_first());
            assert(trim_start_seq(s) == trim_start_seq(p.drop_first() + seq![' ']));
            assert(trim_start_seq(p) == trim_start_seq(p.drop_first()));
        } else {
            assert(trim_start_seq(s) == s);
            assert(trim_start_seq(p) == p);
        }
    }
}

/// A space at the end does not change the trimmed text.
pub proof fn lemma_trim_trailing_space(p: Seq<char>)
    ensures
        trim_seq(p + seq![' ']) == trim_seq(p),
{
    lemma_trim_start_trailing_space(p);
    let a = trim_start_seq(p);
    if trim_start_seq(p + seq![' ']) == a + seq![' '] {
        assert((a + seq![' ']).drop_last() =~= a);
    } else {
        assert(trim_start_seq(p + seq![' ']) =~= Seq::<char>::empty());
        assert(a =~= Seq::<char>::empty());
    }
}

/// The bounds of `trim_seq(v[lo..hi])` within `v`.
pub fn trim_bounds(v: &Vec<char>, lo: usize, hi: usize) -> (r: (usize, usize))
    requires
        lo <= hi <= v.len(),
    ensures
        lo <= r.0 <= r.1 <= hi,
        v@.subrange(r.0 as int, r.1 as int) == trim_seq(v@.subrange(lo as int, hi as int)),
{
    let mut a = lo;
    while a < hi && is_whitespace(v[a])
        invariant
            lo <= a <= hi <= v.len(),
            trim_start_seq(v@.subrange(a as int, hi as int)) == trim_start_seq(
                v@.subrange(lo as int, hi as int),
            ),
        decreases hi - a,
    {
        assert(v@.subrange(a as int, hi as int).drop_first() =~= v@.subrange(a + 1, hi as int));
        a = a + 1;
    }
    let mut b = hi;
    while b > a && is_whitespace(v[b - 1])
        invariant
            lo <= a <= b <= hi <= v.len(),
            trim_end_seq(v@.subrange(a as int, b as int)) == trim_end_seq(
                v@.subrange(a as int, hi as int),
            ),
        decreases b - a,
    {
        assert(v@.subrange(a as int, b as int).drop_last() =~= v@.subrange(a as int, b - 1));
        b = b - 1;
    }
    (a, b)
}

/// `s` without leading and trailing white space (`str::trim`).
pub fn trim(s: &str) -> (r: String)
    ensures
        r@ == trim_seq(s@),
{
    let v = chars_of(s);
    let (a, b) = trim_bounds(&v, 0, v.len());
    assert(v@.subrange(0, v@.len() as int) =~= v@);
    string_of_range(&v, a, b)
}

// ---------------------------------------------------------------------------
// Searching
// ---------------------------------------------------------------------------

/// `p` occurs in `s` at position `i`.
pub open spec fn occurs_at(s: Seq<char>, p: Seq<char>, i: int) -> bool {
    0 <= i && i + p.len() <= s.len() && s.subrange(i, i + p.len()) == p
}

/// `p` occurs somewhere in `s` (`str::contains`).
pub open spec fn contains_seq(s: Seq<char>, p: Seq<char>) -> bool {
    exists|i: int| occurs_at(s, p, i)
}

/// `s` starts with `p` (`str::starts_with`).
pub open spec fn starts_with_seq(s: Seq<char>, p: Seq<char>) -> bool {
    occurs_at(s, p, 0)
}

/// Whether `p` occurs in `v` at position `i`.
pub fn matches_at(v: &Vec<char>, p: &Vec<char>, i: usize) -> (r: bool)
    ensures
        r == occurs_at(v@, p@, i as int),
{
    if i > v.len() || p.len() > v.len() - i {
        return false;
    }
    let mut k: usize = 0;
    while k < p.len()
        invariant
            i + p.len() <= v.len(),
            k <= p.len(),
            forall|j: int| 0 <= j < k ==> v@[i + j] == p@[j],
        decreases p.len() - k,
    {
        if v[i + k] != p[k] {
            assert(v@.subrange(i as int, i + p.len())[k as int] != p@[k as int]);
            return false;
        }
        k = k + 1;
    }
    assert(v@.subrange(i as int, i + p.len()) =~= p@);
    true
}

/// Whether `a` and `b` hold the same characters.
pub fn same_chars(a: &Vec<char>, b: &Vec<char>) -> (r: bool)
    ensures
        r == (a@ == b@),
{
    if a.len() != b.len() {
        return false;
    }
    let r = matches_at(a, b, 0);
    assert(r ==> a@.subrange(0, b@.len() as int) =~= a@);
    proof {
        if a@ == b@ {
            assert(a@.subrange(0, b@.len() as int) =~= a@);
        }
    }
    r
}

/// Whether `a` and `b` are the same text.
pub fn same_text(a: &str, b: &str) -> (r: bool)
    ensures
        r == (a@ == b@),
{
    let v = chars_of(a);
    let w = chars_of(b);
    same_chars(&v, &w)
}

/// Whether `p` occurs somewhere in `v`.
pub fn contains_chars(v: &Vec<char>, p: &Vec<char>) -> (r: bool)
    ensures
        r == contains_seq(v@, p@),
{
    let mut i: usize = 0;
    while i < v.len()
        invariant
            i <= v.len(),
            forall|j: int| 0 <= j < i ==> !occurs_at(v@, p@, j),
        decreases v.len() - i,
    {
        if matches_at(v, p, i) {
            return true;
        }
        i = i + 1;
    }
    matches_at(v, p, i)
}

/// Whether `p` occurs somewhere in `s` (`str::contains`).
pub fn contains(s: &str, p: &str) -> (r: bool)
    ensures
        r == contains_seq(s@, p@),
{
    let v = chars_of(s);
    let w = chars_of(p);
    contains_chars(&v, &w)
}

/// Whether `s` starts with `p` (`str::starts_with`).
pub fn starts_with(s: &str, p: &str) -> (r: bool)
    ensures
        r == starts_with_seq(s@, p@),
{
    let v = chars_of(s);
    let w = chars_of(p);
    matches_at(&v, &w, 0)
}

// ---------------------------------------------------------------------------
// Replacing
// ---------------------------------------------------------------------------

/// `s` with every occurrence of `p`, found from left to right without overlap, replaced
/// by `t` (`str::replace` with a non-empty pattern).
pub open spec fn replace_seq(s: Seq<char>, p: Seq<char>, t: Seq<char>) -> Seq<char>
    decreases s.len(),
{
    if s.len() == 0 || p.len() == 0 {
        s
    } else if occurs_at(s, p, 0) {
        t + replace_seq(s.skip(p.len() as int), p, t)
    } else {
        seq![s[0]] + replace_seq(s.drop_first(), p, t)
    }
}

/// `v` with each occurrence of `p` replaced by `t`, as characters.
pub fn replace_chars(v: &Vec<char>, p: &Vec<char>, t: &Vec<char>) -> (r: Vec<char>)
    requires
        p.len() > 0,
    ensures
        r@ == replace_seq(v@, p@, t@),
{
    let mut r: Vec<char> = Vec::new();
    let mut i: usize = 0;
    assert(v@.skip(0) =~= v@);
    while i < v.len()
        invariant
            p.len() > 0,
            i <= v.len(),
            replace_seq(v@, p@, t@) == r@ + replace_seq(v@.skip(i as int), p@, t@),
        decreases v.len() - i,
    {
        let ghost rest = v@.skip(i as int);
        if matches_at(v, p, i) {
            assert(rest.subrange(0, p@.len() as int) =~= v@.subrange(i as int, i + p@.len()));
            assert(rest.skip(p@.len() as int) =~= v@.skip(i + p@.len()));
            let mut k: usize = 0;
            let ghost r0 = r@;
            while k < t.len()
                invariant
                    k <= t.len(),
                    r@ == r0 + t@.subrange(0, k as int),
                decreases t.len() - k,
            {
                r.push(t[k]);
                k = k + 1;
                assert(t@.subrange(0, k as int) =~= t@.subrange(0, k - 1).push(t@[k - 1]));
            }
            assert(t@.subrange(0, t@.len() as int) =~= t@);
            assert(r0 + (t@ + replace_seq(rest.skip(p@.len() as int), p@, t@)) =~= r@
                + replace_seq(rest.skip(p@.len() as int), p@, t@));
            i = i + p.len();
        } else {
            assert(!occurs_at(rest, p@, 0)) by {
                if rest.len() >= p@.len() {
                    assert(rest.subrange(0, p@.len() as int) =~= v@.subrange(
                        i as int,
                        i + p@.len(),
                    ));
                }
            }
            assert(rest.drop_first() =~= v@.skip(i + 1));
            let ghost r0 = r@;
            r.push(v[i]);
            assert(r0 + (seq![rest[0]] + replace_seq(rest.drop_first(), p@, t@)) =~= r@
                + replace_seq(rest.drop_first(), p@, t@));
            i = i + 1;
        }
    }
    assert(v@.skip(i as int).len() == 0);
    assert(r@ + replace_seq(v@.skip(i as int), p@, t@) =~= r@);
    r
}

/// `s` with each occurrence of `p` replaced by `t` (`str::replace`).
pub fn replace(s: &str, p: &str, t: &str) -> (r: String)
    requires
        p@.len() > 0,
    ensures
        r@ == replace_seq(s@, p@, t@),
{
    let v = chars_of(s);
    let pv = chars_of(p);
    let tv = chars_of(t);
    let rv = replace_chars(&v, &pv, &tv);
    string_of(&rv)
}

// ---------------------------------------------------------------------------
// Splitting
// ---------------------------------------------------------------------------

/// The character sequences that a vector of character vectors holds.
pub open spec fn views(s: Seq<Vec<char>>) -> Seq<Seq<char>> {
    s.map_values(|w: Vec<char>| w@)
}

/// The pieces of `s` between occurrences of `c`, empty pieces included
/// (`str::split` with a character pattern). There is always at least one piece.
pub open spec fn split_seq(s: Seq<char>, c: char) -> Seq<Seq<char>>
    decreases s.len(),
{
    if s.len() == 0 {
        seq![Seq::empty()]
    } else {
        let init = split_seq(s.drop_last(), c);
        if s.last() == c {
            init.push(Seq::empty())
        } else {
            init.update(init.len() - 1, init.last().push(s.last()))
        }
    }
}

/// `split_seq` always yields at least one piece.
pub proof fn lemma_split_seq_nonempty(s: Seq<char>, c: char)
    ensures
        split_seq(s, c).len() >= 1,
    decreases s.len(),
{
    if s.len() > 0 {
        lemma_split_seq_nonempty(s.drop_last(), c);
    }
}

/// `c` does not occur in `s`.
pub open spec fn free_of(s: Seq<char>, c: char) -> bool {
    forall|i: int| 0 <= i < s.len() ==> s[i] != c
}

/// A text without `c` is a single piece.
pub proof fn lemma_split_free(s: Seq<char>, c: char)
    requires
        free_of(s, c),
    ensures
        split_seq(s, c) == seq![s],
    decreases s.len(),
{
    if s.len() == 0 {
        assert(s =~= Seq::<char>::empty());
    } else {
        let d = s.drop_last();
        assert forall|i: int| 0 <= i < d.len() implies d[i] != c by {
            assert(d[i] == s[i]);
        }
        lemma_split_free(d, c);
        assert(s[s.len() - 1] != c);
        assert(d.push(s.last()) =~= s);
        assert(seq![d].update(0, d.push(s.last())) =~= seq![s]);
    }
}

/// A text holding `c` splits into at least two pieces.
pub proof fn lemma_split_holding(s: Seq<char>, c: char, i: int)
    requires
        0 <= i < s.len(),
        s[i] == c,
    ensures
        split_seq(s, c).len() >= 2,
    decreases s.len(),
{
    lemma_split_seq_nonempty(s.drop_last(), c);
    if i < s.len() - 1 {
        assert(s.drop_last()[i] == c);
        lemma_split_holding(s.drop_last(), c, i);
    }
}

/// The first piece of `s` is its longest prefix without `c`: it ends where `s` ends or at
/// the first `c`.
pub proof fn lemma_split_first_piece(s: Seq<char>, c: char) -> (j: int)
    ensures
        0 <= j <= s.len(),
        split_seq(s, c)[0] == s.take(j),
        j < s.len() ==> s[j] == c,
        forall|i: int| 0 <= i < j ==> s[i] != c,
    decreases s.len(),
{
    if s.len() == 0 {
        assert(s.take(0) =~= Seq::<char>::empty());
        0
    } else {
        let d = s.drop_last();
        let jd = lemma_split_first_piece(d, c);
        lemma_split_seq_nonempty(d, c);
        let init = split_seq(d, c);
        assert forall|i: int| 0 <= i < jd implies s[i] != c by {
            assert(s[i] == d[i]);
        }
        if s.last() == c {
            assert(d.take(jd) =~= s.take(jd));
            jd
        } else if init.len() > 1 {
            if jd == d.len() {
                assert(d.take(jd) =~= d);
                lemma_split_free(d, c);
            }
            assert(d.take(jd) =~= s.take(jd));
            jd
        } else {
            if jd < d.len() {
                lemma_split_holding(d, c, jd);
            }
            assert(d.take(jd) =~= d);
            assert(d.push(s.last()) =~= s);
            assert(s.take(s.len() as int) =~= s);
            assert forall|i: int| 0 <= i < s.len() implies s[i] != c by {
                if i < d.len() {
                    assert(s[i] == d[i]);
                }
            }
            s.len() as int
        }
    }
}

/// Splitting at a `c` splits the text into the pieces before it and the pieces after it.
pub proof fn lemma_split_concat(x: Seq<char>, c: char, y: Seq<char>)
    ensures
        split_seq(x + seq![c] + y, c) == split_seq(x, c) + split_seq(y, c),
    decreases y.len(),
{
    let s = x + seq![c] + y;
    if y.len() == 0 {
        assert(s.drop_last() =~= x);
        assert(split_seq(x, c) + seq![Seq::<char>::empty()] =~= split_seq(x, c).push(
            Seq::<char>::empty(),
        ));
        assert(y =~= Seq::<char>::empty());
    } else {
        let d = y.drop_last();
        lemma_split_concat(x, c, d);
        assert(s.drop_last() =~= x + seq![c] + d);
        assert(s.last() == y.last());
        let a = split_seq(x, c);
        let b = split_seq(d, c);
        lemma_split_seq_nonempty(d, c);
        if y.last() == c {
            assert((a + b).push(Seq::<char>::empty()) =~= a + b.push(Seq::<char>::empty()));
        } else {
            let ab = a + b;
            assert(ab.last() == b.last());
            assert(ab.update(ab.len() - 1, ab.last().push(y.last())) =~= a + b.update(
                b.len() - 1,
                b.last().push(y.last()),
            ));
        }
    }
}

/// The pieces of `v[lo..hi]` between occurrences of `c`.
pub fn split_chars(v: &Vec<char>, lo: usize, hi: usize, c: char) -> (r: Vec<Vec<char>>)
    requires
        lo <= hi <= v.len(),
    ensures
        views(r@) == split_seq(v@.subrange(lo as int, hi as int), c),
        r.len() >= 1,
{
    let mut pieces: Vec<Vec<char>> = Vec::new();
    let mut cur: Vec<char> = Vec::new();
    let mut i = lo;
    assert(v@.subrange(lo as int, lo as int) =~= Seq::<char>::empty());
    assert(views(pieces@).push(cur@) =~= seq![Seq::<char>::empty()]);
    while i < hi
        invariant
            lo <= i <= hi <= v.len(),
            views(pieces@).push(cur@) == split_seq(v@.subrange(lo as int, i as int), c),
        decreases hi - i,
    {
        let ghost prev = v@.subrange(lo as int, i as int);
        let ghost next = v@.subrange(lo as int, i + 1);
        assert(next.drop_last() =~= prev);
        proof {
            lemma_split_seq_nonempty(prev, c);
        }
        if v[i] == c {
            let done = cur;
            pieces.push(done);
            cur = Vec::new();
            assert(views(pieces@).push(cur@) =~= split_seq(prev, c).push(Seq::empty()));
        } else {
            let ghost old_pieces = views(pieces@);
            cur.push(v[i]);
            assert(views(pieces@) =~= old_pieces);
            assert(views(pieces@).push(cur@) =~= split_seq(prev, c).update(
                split_seq(prev, c).len() - 1,
                split_seq(prev, c).last().push(v@[i as int]),
            ));
        }
        i = i + 1;
    }
    let ghost before = views(pieces@);
    pieces.push(cur);
    assert(views(pieces@) =~= before.push(cur@));
    pieces
}

/// The words of `s`: its maximal runs of characters that are not white space
/// (`str::split_whitespace`).
pub open spec fn words_seq(s: Seq<char>) -> Seq<Seq<char>>
    decreases s.len(),
{
    if s.len() == 0 {
        seq![]
    } else {
        let w = words_seq(s.drop_last());
        let c = s.last();
        if is_white_space(c) {
            w
        } else if s.len() >= 2 && !is_white_space(s[s.len() - 2]) {
            w.update(w.len() - 1, w.last().push(c))
        } else {
            w.push(seq![c])
        }
    }
}

/// A text that ends in a character other than white space has a last word.
pub proof fn lemma_words_seq_nonempty(s: Seq<char>)
    requires
        s.len() > 0,
        !is_white_space(s.last()),
    ensures
        words_seq(s).len() >= 1,
    decreases s.len(),
{
    if s.len() >= 2 && !is_white_space(s[s.len() - 2]) {
        assert(s.drop_last().last() == s[s.len() - 2]);
        lemma_words_seq_nonempty(s.drop_last());
    }
}

/// The words of `v[lo..hi]`.
pub fn words_of(v: &Vec<char>, lo: usize, hi: usize) -> (r: Vec<Vec<char>>)
    requires
        lo <= hi <= v.len(),
    ensures
        views(r@) == words_seq(v@.subrange(lo as int, hi as int)),
{
    let mut words: Vec<Vec<char>> = Vec::new();
    let mut cur: Vec<char> = Vec::new();
    let mut in_word = false;
    let mut i = lo;
    assert(v@.subrange(lo as int, lo as int) =~= Seq::<char>::empty());
    assert(views(words@) =~= Seq::<Seq<char>>::empty());
    while i < hi
        invariant
            lo <= i <= hi <= v.len(),
            in_word == (i > lo && !is_white_space(v@[i - 1])),
            in_word ==> views(words@).push(cur@) == words_seq(
                v@.subrange(lo as int, i as int),
            ),
            !in_word ==> views(words@) == words_seq(v@.subrange(lo as int, i as int)),
            !in_word ==> cur@.len() == 0,
        decreases hi - i,
    {
        let ghost prev = v@.subrange(lo as int, i as int);
        let ghost next = v@.subrange(lo as int, i + 1);
        assert(next.drop_last() =~= prev);
        let c = v[i];
        if is_whitespace(c) {
            if in_word {
                let ghost before = views(words@);
                let done = cur;
                words.push(done);
                cur = Vec::new();
                assert(views(words@) =~= before.push(done@));
            }
            in_word = false;
        } else {
            if in_word {
                assert(prev.last() == v@[i - 1]);
                proof {
                    lemma_words_seq_nonempty(prev);
                }
                let ghost ws = views(words@);
                cur.push(c);
                assert(views(words@) =~= ws);
                assert(views(words@).push(cur@) =~= words_seq(prev).update(
                    words_seq(prev).len() - 1,
                    words_seq(prev).last().push(c),
                ));
            } else {
                cur.push(c);
                assert(cur@ =~= seq![c]);
            }
            in_word = true;
        }
        i = i + 1;
    }
    if in_word {
        let ghost before = views(words@);
        let done = cur;
        words.push(done);
        assert(views(words@) =~= before.push(done@));
    }
    words
}

/// `l` without one trailing carriage return.
pub open spec fn strip_cr(l: Seq<char>) -> Seq<char> {
    if l.len() > 0 && l.last() == '\r' {
        l.drop_last()
    } else {
        l
    }
}

/// The lines of `s` (`str::lines`): the pieces between newlines, each with one
/// carriage return before its newline removed, and without the empty piece that
/// follows a final newline.
pub open spec fn lines_seq(s: Seq<char>) -> Seq<Seq<char>> {
    let p = split_seq(s, '\n');
    let body = p.drop_last().map_values(|l: Seq<char>| strip_cr(l));
    if p.last().len() == 0 {
        body
    } else {
        body.push(p.last())
    }
}

/// The lines of `v`.
pub fn lines_of(v: &Vec<char>) -> (r: Vec<Vec<char>>)
    ensures
        views(r@) == lines_seq(v@),
{
    let pieces = split_chars(v, 0, v.len(), '\n');
    assert(v@.subrange(0, v@.len() as int) =~= v@);
    let ghost p = views(pieces@);
    let mut r: Vec<Vec<char>> = Vec::new();
    let mut i: usize = 0;
    let n = pieces.len() - 1;
    while i < n
        invariant
            n == pieces.len() - 1,
            p == views(pieces@),
            i <= n,
            views(r@) == p.take(i as int).map_values(|l: Seq<char>| strip_cr(l)),
        decreases n - i,
    {
        let line = &pieces[i];
        let len = line.len();
        let end = if len > 0 && line[len - 1] == '\r' {
            len - 1
        } else {
            len
        };
        let mut out: Vec<char> = Vec::new();
        let mut k: usize = 0;
        while k < end
            invariant
                end <= line.len(),
                k <= end,
                out@ == line@.subrange(0, k as int),
            decreases end - k,
        {
            out.push(line[k]);
            k = k + 1;
            assert(out@ =~= line@.subrange(0, k as int));
        }
        assert(out@ =~= strip_cr(p[i as int]));
        let ghost before = views(r@);
        r.push(out);
        assert(views(r@) =~= before.push(strip_cr(p[i as int])));
        assert(p.take(i + 1).map_values(|l: Seq<char>| strip_cr(l)) =~= p.take(
            i as int,
        ).map_values(|l: Seq<char>| strip_cr(l)).push(strip_cr(p[i as int])));
        i = i + 1;
    }
    assert(p.take(n as int) =~= p.drop_last());
    let last = &pieces[n];
    if last.len() > 0 {
        let mut out: Vec<char> = Vec::new();
        let mut k: usize = 0;
        while k < last.len()
            invariant
                k <= last.len(),
                out@ == last@.subrange(0, k as int),
            decreases last.len() - k,
        {
            out.push(last[k]);
            k = k + 1;
            assert(out@ =~= last@.subrange(0, k as int));
        }
        assert(out@ =~= last@);
        let ghost before = views(r@);
        r.push(out);
        assert(views(r@) =~= before.push(p.last()));
    }
    r
}

/// A copy of `w`.
pub fn copy_chars(w: &Vec<char>) -> (r: Vec<char>)
    ensures
        r@ == w@,
{
    let mut r: Vec<char> = Vec::new();
    let mut k: usize = 0;
    while k < w.len()
        invariant
            k <= w.len(),
            r@ == w@.subrange(0, k as int),
        decreases w.len() - k,
    {
        r.push(w[k]);
        k = k + 1;
        assert(r@ =~= w@.subrange(0, k as int));
    }
    assert(r@ =~= w@);
    r
}

// ---------------------------------------------------------------------------
// Decimal numbers
// ---------------------------------------------------------------------------

/// The decimal digits of `n`, without leading zeros (`n` formatted with `{}`).
pub open spec fn decimal_seq(n: nat) -> Seq<char>
    decreases n,
{
    if n < 10 {
        seq![digit_char(n)]
    } else {
        decimal_seq(n / 10).push(digit_char(n % 10))
    }
}

/// A signed integer in decimal, with a minus sign when it is negative.
pub open spec fn signed_decimal_seq(n: int) -> Seq<char> {
    if n < 0 {
        seq!['-'] + decimal_seq((-n) as nat)
    } else {
        decimal_seq(n as nat)
    }
}

/// The digit character for `d < 10`.
fn digit_of(d: u64) -> (c: char)
    requires
        d < 10,
    ensures
        c == digit_char(d as nat),
{
    let c = (('0' as u8) + (d as u8)) as char;
    c
}

/// Appends the decimal digits of `n` to `s`.
pub fn push_decimal(s: &mut String, n: u64)
    ensures
        final(s)@ == old(s)@ + decimal_seq(n as nat),
    decreases n,
{
    if n >= 10 {
        push_decimal(s, n / 10);
    }
    let ghost mid = s@;
    s.push(digit_of(n % 10));
    assert(s@ =~= old(s)@ + decimal_seq(n as nat));
}

/// `n` in decimal.
pub fn u64_to_decimal(n: u64) -> (r: String)
    ensures
        r@ == decimal_seq(n as nat),
{
    let mut s = String::new();
    push_decimal(&mut s, n);
    assert(s@ =~= decimal_seq(n as nat));
    s
}

/// `n` in decimal, with a minus sign when it is negative.
pub fn i64_to_decimal(n: i64) -> (r: String)
    ensures
        r@ == signed_decimal_seq(n as int),
{
    let mut s = String::new();
    if n < 0 {
        s.push('-');
        let m: u64 = if n == i64::MIN {
            9223372036854775808u64
        } else {
            (-n) as u64
        };
        push_decimal(&mut s, m);
        assert(s@ =~= seq!['-'] + decimal_seq((-n) as nat));
    } else {
        push_decimal(&mut s, n as u64);
        assert(s@ =~= decimal_seq(n as nat));
    }
    s
}

/// The value of a sequence of decimal digits.
pub open spec fn digits_value(d: Seq<char>) -> nat
    decreases d.len(),
{
    if d.len() == 0 {
        0
    } else {
        digits_value(d.drop_last()) * 10 + digit_value(d.last())
    }
}

/// Every character of `d` is a decimal digit.
pub open spec fn all_digits(d: Seq<char>) -> bool {
    forall|i: int| 0 <= i < d.len() ==> is_decimal_digit(#[trigger] d[i])
}

/// The digits of an unsigned number in text: without one leading plus sign.
pub open spec fn unsigned_digits(s: Seq<char>) -> Seq<char> {
    if s.len() > 0 && s[0] == '+' {
        s.drop_first()
    } else {
        s
    }
}

/// The number that `s` writes, as `str::parse` reads an unsigned integer of unbounded
/// size: an optional plus sign, then one or more decimal digits and nothing else.
pub open spec fn parse_unsigned_seq(s: Seq<char>) -> Option<nat> {
    let d = unsigned_digits(s);
    if d.len() > 0 && all_digits(d) {
        Some(digits_value(d))
    } else {
        None
    }
}

/// A prefix of a digit sequence is worth no more than the whole.
pub proof fn lemma_digits_value_prefix(d: Seq<char>, k: int)
    requires
        0 <= k <= d.len(),
        all_digits(d),
    ensures
        digits_value(d.take(k)) <= digits_value(d),
    decreases d.len(),
{
    if k < d.len() {
        assert(all_digits(d.drop_last())) by {
            assert forall|i: int| 0 <= i < d.drop_last().len() implies is_decimal_digit(
                #[trigger] d.drop_last()[i],
            ) by {
                assert(d.drop_last()[i] == d[i]);
            }
        }
        assert(d.drop_last().take(k) =~= d.take(k));
        lemma_digits_value_prefix(d.drop_last(), k);
    } else {
        assert(d.take(k) =~= d);
    }
}

/// The number written in `v[lo..hi]`, when it is at most `max`.
pub fn parse_unsigned(v: &Vec<char>, lo: usize, hi: usize, max: u64) -> (r: Option<u64>)
    requires
        lo <= hi <= v.len(),
    ensures
        r == (match parse_unsigned_seq(v@.subrange(lo as int, hi as int)) {
            Some(n) => if n <= max {
                Some(n as u64)
            } else {
                None::<u64>
            },
            None => None,
        }),
{
    let ghost s = v@.subrange(lo as int, hi as int);
    let start = if lo < hi && v[lo] == '+' {
        lo + 1
    } else {
        lo
    };
    let ghost d = v@.subrange(start as int, hi as int);
    assert(d =~= unsigned_digits(s));
    if start >= hi {
        return None;
    }
    let mut i = start;
    while i < hi
        invariant
            start <= i <= hi <= v.len(),
            d == v@.subrange(start as int, hi as int),
            s == v@.subrange(lo as int, hi as int),
            d == unsigned_digits(s),
            forall|j: int| start <= j < i ==> is_decimal_digit(#[trigger] v@[j]),
        decreases hi - i,
    {
        if !(v[i] >= '0' && v[i] <= '9') {
            assert(d[i - start] == v@[i as int]);
            assert(!all_digits(d));
            return None;
        }
        i = i + 1;
    }
    assert(all_digits(d)) by {
        assert forall|j: int| 0 <= j < d.len() implies is_decimal_digit(#[trigger] d[j]) by {
            assert(d[j] == v@[start + j]);
        }
    }
    let mut acc: u64 = 0;
    let mut k = start;
    assert(d.take(0) =~= Seq::<char>::empty());
    while k < hi
        invariant
            start <= k <= hi <= v.len(),
            d == v@.subrange(start as int, hi as int),
            s == v@.subrange(lo as int, hi as int),
            d == unsigned_digits(s),
            all_digits(d),
            acc as nat == digits_value(d.take(k - start)),
            acc <= max,
        decreases hi - k,
    {
        let ghost t = d.take(k - start + 1);
        assert(t.drop_last() =~= d.take(k - start));
        assert(t.last() == v@[k as int]);
        assert(is_decimal_digit(d[k - start]));
        let digit = ((v[k] as u32) - ('0' as u32)) as u64;
        assert(digit == digit_value(t.last()));
        if digit > max || acc > (max - digit) / 10 {
            proof {
                assert(acc * 10 + digit > max) by (nonlinear_arith)
                    requires
                        digit > max || acc > (max - digit) / 10,
                ;
                lemma_digits_value_prefix(d, k - start + 1);
            }
            return None;
        }
        proof {
            assert(acc * 10 + digit <= max) by (nonlinear_arith)
                requires
                    acc <= (max - digit) / 10,
                    digit <= max,
            ;
        }
        acc = acc * 10 + digit;
        k = k + 1;
    }
    assert(d.take(hi - start) =~= d);
    Some(acc)
}

} // verus!
