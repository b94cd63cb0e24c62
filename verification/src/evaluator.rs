use evalexpr::ContextWithMutableFunctions;
use vstd::prelude::*;

use crate::calc::{EvalOutcome, OutcomeView};
use crate::text::{chars_of, contains, contains_seq, matches_at, occurs_at};

verus! {

// ---------------------------------------------------------------------------
// Which expressions are handed to the evaluator
// ---------------------------------------------------------------------------

/// The most operators, brackets and other signs an expression handed to the evaluator
/// may hold. Each node of evalexpr's operator tree that is not a leaf comes from at
/// least one such sign, and evaluation recurses once per level of that tree, so this
/// bounds the depth of the recursion.
pub const MAX_OPERATORS: usize = 500;

/// A character that can be part of a number or a name: an ASCII letter or digit, or `_`.
pub open spec fn is_word_char(c: char) -> bool {
    ||| ('a' <= c && c <= 'z')
    ||| ('A' <= c && c <= 'Z')
    ||| ('0' <= c && c <= '9')
    ||| c == '_'
}

/// How many characters of `s` are not word characters: operators, brackets, separators,
/// quotes and everything else.
pub open spec fn operator_count(s: Seq<char>) -> nat
    decreases s.len(),
{
    if s.len() == 0 {
        0
    } else {
        operator_count(s.drop_last()) + if is_word_char(s.last()) {
            0nat
        } else {
            1nat
        }
    }
}

/// An expression the evaluator can be handed: its operator tree cannot be deeper than
/// `MAX_OPERATORS`.
pub open spec fn evaluable(e: Seq<char>) -> bool {
    operator_count(e) <= MAX_OPERATORS
}

/// Whether `expr` can be handed to the evaluator.
pub fn is_evaluable(expr: &str) -> (r: bool)
    ensures
        r == evaluable(expr@),
{
    let v = chars_of(expr);
    let mut n: usize = 0;
    let mut i: usize = 0;
    while i < v.len()
        invariant
            i <= v.len(),
            n == operator_count(v@.take(i as int)),
            n <= i,
        decreases v.len() - i,
    {
        assert(v@.take(i + 1).drop_last() =~= v@.take(i as int));
        let c = v[i];
        if !(('a' <= c && c <= 'z') || ('A' <= c && c <= 'Z') || ('0' <= c && c <= '9') || c
            == '_') {
            n = n + 1;
        }
        i = i + 1;
    }
    assert(v@.take(v.len() as int) =~= v@);
    n <= MAX_OPERATORS
}

/// An expression whose value does not depend on the platform's math library: it uses
/// no power operator `^` and, of the `math::` functions, at most `math::abs`, which
/// only clears a sign.
pub open spec fn platform_independent(e: Seq<char>) -> bool {
    &&& !contains_seq(e, "^"@)
    &&& forall|i: int| occurs_at(e, "math::"@, i) ==> occurs_at(e, "math::abs"@, i)
}

/// Whether the value of `expr` does not depend on the platform's math library.
pub fn is_platform_independent(expr: &str) -> (r: bool)
    ensures
        r == platform_independent(expr@),
{
    if contains(expr, "^") {
        return false;
    }
    let v = chars_of(expr);
    let m = chars_of("math::");
    let a = chars_of("math::abs");
    let mut i: usize = 0;
    while i < v.len()
        invariant
            i <= v.len(),
            v@ == expr@,
            m@ == "math::"@,
            a@ == "math::abs"@,
            forall|j: int| 0 <= j < i ==> occurs_at(v@, m@, j) ==> occurs_at(v@, a@, j),
        decreases v.len() - i,
    {
        if matches_at(&v, &m, i) && !matches_at(&v, &a, i) {
            assert(occurs_at(expr@, "math::"@, i as int));
            assert(!occurs_at(expr@, "math::abs"@, i as int));
            return false;
        }
        i = i + 1;
    }
    assert forall|j: int| occurs_at(v@, m@, j) implies occurs_at(v@, a@, j) by {
        if j >= v.len() {
            assert(m@.len() > 0) by {
                reveal_strlit("math::");
            }
        }
    }
    true
}

// ---------------------------------------------------------------------------
// UTF-8 offsets, as `str::substring` counts them
// ---------------------------------------------------------------------------

/// How many bytes UTF-8 takes for `c`.
pub open spec fn utf8_width(c: char) -> nat {
    if (c as u32) < 0x80 {
        1
    } else if (c as u32) < 0x800 {
        2
    } else if (c as u32) < 0x10000 {
        3
    } else {
        4
    }
}

/// How many bytes UTF-8 takes for `s`.
pub open spec fn utf8_len(s: Seq<char>) -> nat
    decreases s.len(),
{
    if s.len() == 0 {
        0
    } else {
        utf8_len(s.drop_last()) + utf8_width(s.last())
    }
}

/// The byte offset `k` ends one of the first `n` characters of `s` (or is 0).
pub open spec fn boundary_within(s: Seq<char>, k: int, n: int) -> bool {
    exists|j: int| 0 <= j <= n && utf8_len(s.take(j)) == k
}

/// The byte offset `k` lies between two characters of `s` (`str::is_char_boundary`).
pub open spec fn is_char_boundary(s: Seq<char>, k: int) -> bool {
    boundary_within(s, k, s.len() as int)
}

/// The call `str::substring(s, start, end)` of evalexpr slices `s` at byte offsets that
/// are in range but split a character, where the builtin panics. Without `end` the slice
/// runs to the end of `s`.
pub open spec fn substring_panics(s: Seq<char>, start: i64, end: Option<i64>) -> bool {
    let e: int = match end {
        Some(x) => x as int,
        None => utf8_len(s) as int,
    };
    &&& 0 <= start
    &&& 0 <= e
    &&& start <= e
    &&& e <= utf8_len(s)
    &&& !(is_char_boundary(s, start as int) && is_char_boundary(s, e))
}

fn utf8_width_of(c: char) -> (w: u8)
    ensures
        w == utf8_width(c),
{
    let u = c as u32;
    if u < 0x80 {
        1
    } else if u < 0x800 {
        2
    } else if u < 0x10000 {
        3
    } else {
        4
    }
}

/// Whether `str::substring(s, start, end)` would split a character of `s`.
pub fn substring_splits(s: &str, start: i64, end: Option<i64>) -> (r: bool)
    ensures
        r == substring_panics(s@, start, end),
{
    let v = chars_of(s);
    let target: i128 = match end {
        Some(x) => x as i128,
        None => -1,
    };
    let mut acc: i128 = 0;
    let mut start_ok = start == 0;
    let mut end_ok = target == 0;
    let mut j: usize = 0;
    assert(v@.take(0) =~= Seq::<char>::empty());
    assert(utf8_len(v@.take(0)) == 0);
    while j < v.len()
        invariant
            j <= v.len(),
            acc == utf8_len(v@.take(j as int)),
            acc <= 4 * j,
            start_ok == boundary_within(v@, start as int, j as int),
            end_ok == boundary_within(v@, target as int, j as int),
        decreases v.len() - j,
    {
        let ghost n = j as int;
        assert(v@.take(n + 1).drop_last() =~= v@.take(n));
        assert(v@.take(n + 1).last() == v@[n]);
        let w = utf8_width_of(v[j]);
        acc = acc + w as i128;
        assert(acc == utf8_len(v@.take(n + 1)));
        assert forall|k: int|
            boundary_within(v@, k, n + 1) == (boundary_within(v@, k, n) || utf8_len(
                v@.take(n + 1),
            ) == k) by {
            if boundary_within(v@, k, n + 1) {
                let i = choose|i: int| 0 <= i <= n + 1 && utf8_len(v@.take(i)) == k;
                if i <= n {
                    assert(boundary_within(v@, k, n));
                }
            }
            if boundary_within(v@, k, n) {
                let i = choose|i: int| 0 <= i <= n && utf8_len(v@.take(i)) == k;
                assert(0 <= i <= n + 1 && utf8_len(v@.take(i)) == k);
            }
        }
        start_ok = start_ok || acc == start as i128;
        end_ok = end_ok || acc == target;
        j = j + 1;
    }
    assert(v@.take(v.len() as int) =~= v@);
    let e: i128 = match end {
        Some(x) => x as i128,
        None => acc,
    };
    let e_ok = match end {
        Some(_) => end_ok,
        None => {
            assert(utf8_len(v@.take(v@.len() as int)) == acc);
            true
        },
    };
    0 <= start && 0 <= e && start as i128 <= e && e <= acc && !(start_ok && e_ok)
}

// ---------------------------------------------------------------------------
// Guards for the builtins that can panic
// ---------------------------------------------------------------------------

/// What a guard does with a call of a builtin.
pub enum Guard {
    /// Leaves the call to evalexpr's builtin, which returns without panicking.
    Builtin,
    /// Fails the call, where the builtin would panic.
    Refuse,
}

/// Whether `shl` or `shr` of evalexpr, called on two integers, shifts by an amount out of
/// range, where the shift panics.
pub open spec fn shift_refused(args: Option<(i64, i64)>) -> bool {
    match args {
        Some((_, b)) => b < 0 || b >= 64,
        None => false,
    }
}

/// The guard of `shl` and `shr`, given the two integers of the call, if it has them.
pub fn shift_guard(args: Option<(i64, i64)>) -> (g: Guard)
    ensures
        (g is Refuse) == shift_refused(args),
{
    match args {
        Some((_, b)) => if b < 0 || b >= 64 {
            Guard::Refuse
        } else {
            Guard::Builtin
        },
        None => Guard::Builtin,
    }
}

/// The guard of `math::abs`, given the integer of the call, if it is one: the absolute
/// value of the least integer overflows.
pub fn abs_guard(arg: Option<i64>) -> (g: Guard)
    ensures
        (g is Refuse) == (arg == Some(i64::MIN)),
{
    match arg {
        Some(n) => if n == i64::MIN {
            Guard::Refuse
        } else {
            Guard::Builtin
        },
        None => Guard::Builtin,
    }
}

/// Whether `str::substring` of evalexpr, called on a text and offsets, splits a
/// character.
pub open spec fn substring_refused(args: Option<(Seq<char>, i64, Option<i64>)>) -> bool {
    match args {
        Some((s, start, end)) => substring_panics(s, start, end),
        None => false,
    }
}

/// The guard of `str::substring`, given the text and offsets of the call, if it has them.
pub fn substring_guard(args: Option<(String, i64, Option<i64>)>) -> (g: Guard)
    ensures
        (g is Refuse) == substring_refused(
            match args {
                Some((s, a, e)) => Some((s@, a, e)),
                None => None,
            },
        ),
{
    match args {
        Some((s, a, e)) => if substring_splits(s.as_str(), a, e) {
            Guard::Refuse
        } else {
            Guard::Builtin
        },
        None => Guard::Builtin,
    }
}

#[verifier::external_type_specification]
#[verifier::external_body]
pub struct ExValue(evalexpr::Value);

#[verifier::external_type_specification]
#[verifier::external_body]
pub struct ExEvalexprError(evalexpr::EvalexprError);

#[verifier::external_type_specification]
#[verifier::external_body]
pub struct ExHashMapContext(evalexpr::HashMapContext);

/// Reads the argument of a call of `shl` or `shr` as evalexpr's builtins do, with
/// `Value::as_fixed_len_tuple(2)` and `Value::as_int`: the two integers, or none where
/// either read fails (and the builtin fails too). `Value` is opaque here, so nothing is
/// stated of the result.
#[verifier::external_body]
fn int_pair(arg: &evalexpr::Value) -> Option<(i64, i64)> {
    match arg.as_fixed_len_tuple(2) {
        Ok(t) => match (t[0].as_int(), t[1].as_int()) {
            (Ok(a), Ok(b)) => Some((a, b)),
            _ => None,
        },
        Err(_) => None,
    }
}

/// Reads the argument of a call of `math::abs` with `Value::as_int`: the integer, or
/// none where it is no integer. `Value` is opaque here, so nothing is stated of the
/// result.
#[verifier::external_body]
fn int_arg(arg: &evalexpr::Value) -> Option<i64> {
    arg.as_int().ok()
}

/// Reads the argument of a call of `str::substring` as evalexpr's builtin does, with
/// `Value::as_ranged_len_tuple(2..=3)`, `Value::as_string` and `Value::as_int`: the text,
/// the start and the end if given, or none where a read fails (and the builtin fails
/// too). `Value` is opaque here, so nothing is stated of the result.
#[verifier::external_body]
fn substring_args(arg: &evalexpr::Value) -> Option<(String, i64, Option<i64>)> {
    let t = arg.as_ranged_len_tuple(2..=3).ok()?;
    let (s, start) = (t[0].as_string().ok()?, t[1].as_int().ok()?);
    match t.get(2) {
        Some(e) => Some((s, start, Some(e.as_int().ok()?))),
        None => Some((s, start, None)),
    }
}

/// The error `EvalexprError::FunctionIdentifierNotFound`: returned by a function of the
/// context, it makes evalexpr call its builtin of the same name in its stead.
#[verifier::external_body]
fn pass_to_builtin(name: &str) -> evalexpr::EvalexprError {
    evalexpr::EvalexprError::FunctionIdentifierNotFound(name.to_string())
}

/// The error `EvalexprError::OutOfBoundsAccess`, which fails the evaluation.
#[verifier::external_body]
fn refusal() -> evalexpr::EvalexprError {
    evalexpr::EvalexprError::OutOfBoundsAccess
}

/// What a function of the context returns for a guard's decision.
fn guarded(name: &str, g: Guard) -> Result<evalexpr::Value, evalexpr::EvalexprError> {
    match g {
        Guard::Builtin => Err(pass_to_builtin(name)),
        Guard::Refuse => Err(refusal()),
    }
}

/// `shl` of the evaluator's context.
pub fn guarded_shl(arg: &evalexpr::Value) -> Result<evalexpr::Value, evalexpr::EvalexprError> {
    guarded("shl", shift_guard(int_pair(arg)))
}

/// `shr` of the evaluator's context.
pub fn guarded_shr(arg: &evalexpr::Value) -> Result<evalexpr::Value, evalexpr::EvalexprError> {
    guarded("shr", shift_guard(int_pair(arg)))
}

/// `math::abs` of the evaluator's context.
pub fn guarded_abs(arg: &evalexpr::Value) -> Result<evalexpr::Value, evalexpr::EvalexprError> {
    guarded("math::abs", abs_guard(int_arg(arg)))
}

/// `str::substring` of the evaluator's context.
pub fn guarded_substring(arg: &evalexpr::Value) -> Result<
    evalexpr::Value,
    evalexpr::EvalexprError,
> {
    guarded("str::substring", substring_guard(substring_args(arg)))
}

/// A fresh `evalexpr::HashMapContext` (no variables) whose functions `shl`, `shr`,
/// `math::abs` and `str::substring` are the guarded ones above, set with
/// `ContextWithMutableFunctions::set_function`.
#[verifier::external_body]
fn guarded_context() -> evalexpr::HashMapContext {
    let mut c = evalexpr::HashMapContext::new();
    let _ = c.set_function("shl".into(), evalexpr::Function::new(|a| guarded_shl(a)));
    let _ = c.set_function("shr".into(), evalexpr::Function::new(|a| guarded_shr(a)));
    let _ = c.set_function("math::abs".into(), evalexpr::Function::new(|a| guarded_abs(a)));
    let _ = c.set_function("str::substring".into(), evalexpr::Function::new(|a| guarded_substring(a)));
    c
}

// ---------------------------------------------------------------------------
// Evaluation
// ---------------------------------------------------------------------------

/// What evalexpr's `eval_with_context_mut` gives for the expression `expr` in a
/// `guarded_context()`, a float taken as its `{}` text. Wherever `evalexpr::eval(expr)`
/// returns, the two agree: the guards only fail the calls on which the builtins would
/// panic.
pub uninterp spec fn eval_outcome(expr: Seq<char>) -> OutcomeView;

/// Evaluates `expr` with `evalexpr::eval_with_context_mut` in a `guarded_context()` (the
/// crate's `rand` and `regex_support` features are off), and tells the variants of the
/// resulting `evalexpr::Value` apart: an integer, a float (formatted with `{}`), any
/// other value, or an error. Claimed of it: on a platform-independent expression the
/// outcome is `eval_outcome(expr)`, a function of the text alone. Left unsaid: the
/// outcome of an expression that uses `^` or a `math::` function other than `math::abs`,
/// whose float results come from the platform's math library, and what `eval_outcome`
/// is on given texts. The `requires` bounds the depth of evalexpr's recursion, which
/// could otherwise exhaust the stack.
#[verifier::external_body]
pub(crate) fn evaluate(expr: &str) -> (r: EvalOutcome)
    requires
        evaluable(expr@),
    ensures
        platform_independent(expr@) ==> r@ == eval_outcome(expr@),
{
    match evalexpr::eval_with_context_mut(expr, &mut guarded_context()) {
        Ok(evalexpr::Value::Int(n)) => EvalOutcome::Int(n),
        Ok(evalexpr::Value::Float(x)) => EvalOutcome::Float(format!("{}", x)),
        Ok(_) => EvalOutcome::NotANumber,
        Err(_) => EvalOutcome::Failed,
    }
}

} // verus!
