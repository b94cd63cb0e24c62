use vstd::prelude::*;

use crate::icons::{file_icon_spec, get_file_icon};
use crate::search::{result_view, SearchResult};
use crate::state::FileEntry;
use crate::text::{decimal_seq, digit_char, push_decimal, to_uppercase, uppercase_of};

verus! {

/// `num / den` rounded to the nearest integer, ties to the even one.
pub open spec fn round_half_even(num: nat, den: nat) -> nat
    recommends
        den > 0,
{
    let q = num / den;
    let r = num % den;
    if 2 * r > den {
        q + 1
    } else if 2 * r < den {
        q
    } else if q % 2 == 0 {
        q
    } else {
        q + 1
    }
}

/// The spacing of the double-precision numbers around a 64-bit unsigned integer `n`:
/// one below 2^53, doubling with each further binary digit of `n`.
pub open spec fn f64_spacing(n: nat) -> nat {
    if n < 0x20_0000_0000_0000 {
        1
    } else if n < 0x40_0000_0000_0000 {
        2
    } else if n < 0x80_0000_0000_0000 {
        4
    } else if n < 0x100_0000_0000_0000 {
        8
    } else if n < 0x200_0000_0000_0000 {
        16
    } else if n < 0x400_0000_0000_0000 {
        32
    } else if n < 0x800_0000_0000_0000 {
        64
    } else if n < 0x1000_0000_0000_0000 {
        128
    } else if n < 0x2000_0000_0000_0000 {
        256
    } else if n < 0x4000_0000_0000_0000 {
        512
    } else if n < 0x8000_0000_0000_0000 {
        1024
    } else {
        2048
    }
}

/// The value of `n as f64` for a 64-bit unsigned `n`: the nearest double, ties to even.
pub open spec fn as_f64_value(n: nat) -> nat {
    let d = f64_spacing(n);
    round_half_even(n, d) * d
}

/// `num / den` with one decimal, as `{:.1}` prints a number whose exact value this is:
/// rounded to tenths, ties to even.
pub open spec fn one_decimal(num: nat, den: nat) -> Seq<char> {
    let t = round_half_even(num * 10, den);
    decimal_seq(t / 10) + seq!['.', digit_char(t % 10)]
}

/// A file size in bytes as the launcher shows it: bytes below 1024, then kibibytes,
/// mebibytes and gibibytes with one decimal, the gibibytes computed from the size as a
/// double.
pub open spec fn human_size_seq(size: nat) -> Seq<char> {
    if size < 1024 {
        decimal_seq(size) + " B"@
    } else if size < 1048576 {
        one_decimal(size, 1024) + " KB"@
    } else if size < 1073741824 {
        one_decimal(size, 1048576) + " MB"@
    } else {
        one_decimal(as_f64_value(size), 1073741824) + " GB"@
    }
}

/// The size text for a file whose size could be read (`Some`) or not.
pub open spec fn size_text_seq(size: Option<u64>) -> Seq<char> {
    match size {
        Some(s) => human_size_seq(s as nat),
        None => "?"@,
    }
}

fn round_half_even_exec(num: u128, den: u128) -> (r: u128)
    requires
        den > 0,
        num / den < u128::MAX,
    ensures
        r == round_half_even(num as nat, den as nat),
{
    let q = num / den;
    let r = num % den;
    if r > den - r {
        q + 1
    } else if r < den - r {
        q
    } else if q % 2 == 0 {
        q
    } else {
        q + 1
    }
}

fn f64_spacing_exec(n: u64) -> (d: u128)
    ensures
        d == f64_spacing(n as nat),
        1 <= d <= 2048,
{
    if n < 0x20_0000_0000_0000 {
        1
    } else if n < 0x40_0000_0000_0000 {
        2
    } else if n < 0x80_0000_0000_0000 {
        4
    } else if n < 0x100_0000_0000_0000 {
        8
    } else if n < 0x200_0000_0000_0000 {
        16
    } else if n < 0x400_0000_0000_0000 {
        32
    } else if n < 0x800_0000_0000_0000 {
        64
    } else if n < 0x1000_0000_0000_0000 {
        128
    } else if n < 0x2000_0000_0000_0000 {
        256
    } else if n < 0x4000_0000_0000_0000 {
        512
    } else if n < 0x8000_0000_0000_0000 {
        1024
    } else {
        2048
    }
}

/// Appends `num / den` with one decimal.
fn push_one_decimal(s: &mut String, num: u128, den: u128)
    requires
        den > 0,
        num <= 0x1_0000_0000_0000_0800,
        den >= 1024,
    ensures
        final(s)@ == old(s)@ + one_decimal(num as nat, den as nat),
{
    let n10 = num * 10;
    assert(n10 / den <= n10) by (nonlinear_arith)
        requires
            den > 0,
    ;
    let t = round_half_even_exec(n10, den);
    assert(t <= n10 / den + 1);
    assert(n10 / den <= n10 / 1024) by (nonlinear_arith)
        requires
            den >= 1024,
    ;
    assert(n10 / 1024 <= 0xa_0000_0000_0000_5000u128 / 1024) by (nonlinear_arith)
        requires
            n10 <= 0xa_0000_0000_0000_5000,
    ;
    let whole = t / 10;
    assert(whole < 0x1_0000_0000_0000_0000);
    push_decimal(s, whole as u64);
    s.push('.');
    let d = (t % 10) as u8;
    let c = (('0' as u8) + d) as char;
    s.push(c);
    assert(s@ =~= old(s)@ + one_decimal(num as nat, den as nat));
}

/// The text for a file size in bytes: `"?"` when the size could not be read, otherwise
/// bytes, KB, MB or GB as the launcher shows them.
pub fn human_size_text(size: Option<u64>) -> (r: String)
    ensures
        r@ == size_text_seq(size),
{
    match size {
        None => String::from_str("?"),
        Some(n) => {
            let mut s = String::new();
            if n < 1024 {
                push_decimal(&mut s, n);
                s.append(" B");
            } else if n < 1048576 {
                push_one_decimal(&mut s, n as u128, 1024);
                s.append(" KB");
            } else if n < 1073741824 {
                push_one_decimal(&mut s, n as u128, 1048576);
                s.append(" MB");
            } else {
                let d = f64_spacing_exec(n);
                let m = round_half_even_exec(n as u128, d);
                assert(m <= (n as u128) / d + 1);
                assert((n as u128) / d * d <= n as u128) by (nonlinear_arith)
                    requires
                        d > 0,
                ;
                assert(m * d <= n as u128 + d) by (nonlinear_arith)
                    requires
                        m <= (n as u128) / d + 1,
                        (n as u128) / d * d <= n as u128,
                        d > 0,
                ;
                let f = m * d;
                push_one_decimal(&mut s, f, 1073741824);
                s.append(" GB");
            }
            assert(s@ =~= human_size_seq(n as nat));
            s
        },
    }
}

/// The description of a file: its extension in uppercase (`"FILE"` when it has none),
/// its size and its modification time, separated by bullets.
pub open spec fn file_info_seq(ext: Option<Seq<char>>, size: Seq<char>, date: Seq<char>) -> Seq<
    char,
> {
    let e = match ext {
        Some(e) => e,
        None => "File"@,
    };
    uppercase_of(e) + " • "@ + size + " • "@ + date
}

/// The description of a file with extension `ext`, size text `size` and modification
/// time `date`.
pub fn file_info_text(ext: Option<&str>, size: &str, date: &str) -> (r: String)
    ensures
        r@ == file_info_seq(
            match ext {
                Some(e) => Some(e@),
                None => None,
            },
            size@,
            date@,
        ),
{
    let mut s = match ext {
        Some(e) => to_uppercase(e),
        None => to_uppercase("File"),
    };
    s.append(" • ");
    s.append(size);
    s.append(" • ");
    s.append(date);
    s
}

/// The search result for the indexed file `entry` found under `name`, given its size in
/// bytes (when it could be read) and its modification time as text.
pub fn file_search_result(name: String, entry: &FileEntry, size: Option<u64>, modified: &str) -> (r:
    SearchResult)
    ensures
        r@ == result_view(
            name@,
            file_info_seq(entry@.extension, size_text_seq(size), modified@),
            file_icon_spec(
                match entry@.extension {
                    Some(e) => Some(crate::text::lowercase_of(e)),
                    None => None,
                },
            ),
            "file"@,
            entry@.path,
        ),
{
    let size_text = human_size_text(size);
    let ext: Option<&str> = match &entry.extension {
        Some(e) => Some(e.as_str()),
        None => None,
    };
    let desc = file_info_text(ext, size_text.as_str(), modified);
    let icon = get_file_icon(ext);
    SearchResult {
        name,
        desc,
        icon,
        result_type: String::from_str("file"),
        path: entry.path.clone(),
    }
}

} // verus!
