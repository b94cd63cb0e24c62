use vstd::prelude::*;

use crate::evaluator::{
    eval_outcome, evaluable, evaluate, is_evaluable, platform_independent,
};
use crate::text::{
    chars_of, i64_to_decimal, is_decimal_digit, is_white_space,
    is_whitespace, lemma_trim_end_shape, lemma_trim_start_shape, signed_decimal_seq, string_of,
    trim_bounds, trim_end_seq, trim_seq, trim_start_seq,
};

verus! {

/// `s` with every white space character taken out.
pub open spec fn without_white_space(s: Seq<char>) -> Seq<char>
    decreases s.len(),
{
    if s.len() == 0 {
        s
    } else {
        let r = without_white_space(s.drop_last());
        if is_white_space(s.last()) {
            r
        } else {
            r.push(s.last())
        }
    }
}

/// Taking white space out of a concatenation takes it out of each part.
pub proof fn lemma_without_white_space_concat(a: Seq<char>, b: Seq<char>)
    ensures
        without_white_space(a + b) == without_white_space(a) + without_white_space(b),
    decreases b.len(),
{
    if b.len() == 0 {
        assert(a + b =~= a);
        assert(without_white_space(a) + without_white_space(b) =~= without_white_space(a));
    } else {
        lemma_without_white_space_concat(a, b.drop_last());
        assert((a + b).drop_last() =~= a + b.drop_last());
        assert((a + b).last() == b.last());
        if !is_white_space(b.last()) {
            assert(without_white_space(a) + without_white_space(b.drop_last()).push(b.last())
                =~= (without_white_space(a) + without_white_space(b.drop_last())).push(b.last()));
        }
    }
}

/// `without_white_space(s)` holds no white space, and a text without white space is its
/// own `without_white_space`.
pub proof fn lemma_without_white_space_shape(s: Seq<char>)
    ensures
        forall|i: int|
            0 <= i < without_white_space(s).len() ==> !is_white_space(
                #[trigger] without_white_space(s)[i],
            ),
        (forall|i: int| 0 <= i < s.len() ==> !is_white_space(#[trigger] s[i]))
            ==> without_white_space(s) == s,
    decreases s.len(),
{
    if s.len() > 0 {
        lemma_without_white_space_shape(s.drop_last());
        let r = without_white_space(s.drop_last());
        assert forall|i: int| 0 <= i < without_white_space(s).len() implies !is_white_space(
            #[trigger] without_white_space(s)[i],
        ) by {
            if i < r.len() {
                assert(without_white_space(s)[i] == r[i]);
            }
        }
        if forall|i: int| 0 <= i < s.len() ==> !is_white_space(#[trigger] s[i]) {
            assert forall|i: int| 0 <= i < s.drop_last().len() implies !is_white_space(
                #[trigger] s.drop_last()[i],
            ) by {
                assert(s.drop_last()[i] == s[i]);
            }
            assert(!is_white_space(s[s.len() - 1]));
            assert(s.drop_last().push(s.last()) =~= s);
        }
    }
}

/// Trimming does not change what is left once all white space is taken out.
pub proof fn lemma_without_white_space_trim(s: Seq<char>)
    ensures
        without_white_space(trim_seq(s)) == without_white_space(s),
{
    lemma_without_white_space_trim_start(s);
    lemma_without_white_space_trim_end(trim_start_seq(s));
}

proof fn lemma_without_white_space_trim_start(s: Seq<char>)
    ensures
        without_white_space(trim_start_seq(s)) == without_white_space(s),
    decreases s.len(),
{
    if s.len() > 0 && is_white_space(s[0]) {
        lemma_without_white_space_trim_start(s.drop_first());
        let head = s.subrange(0, 1);
        assert(head + s.drop_first() =~= s);
        lemma_without_white_space_concat(head, s.drop_first());
        assert(head.drop_last() =~= Seq::<char>::empty());
        assert(head.last() == s[0]);
        assert(without_white_space(head.drop_last()).len() == 0);
        assert(without_white_space(head) =~= Seq::<char>::empty());
        assert(Seq::<char>::empty() + without_white_space(s.drop_first()) =~= without_white_space(
            s.drop_first(),
        ));
    }
}

proof fn lemma_without_white_space_trim_end(s: Seq<char>)
    ensures
        without_white_space(trim_end_seq(s)) == without_white_space(s),
    decreases s.len(),
{
    if s.len() > 0 && is_white_space(s.last()) {
        lemma_without_white_space_trim_end(s.drop_last());
    }
}

/// The calculator ignores white space: taking every white space character out of the
/// input changes neither the expression it evaluates nor what it may show.
pub proof fn lemma_calculation_ignores_white_space(s: Seq<char>)
    ensures
        expression_of(without_white_space(s)) == expression_of(s),
        forall|c: Option<Seq<char>>|
            calculation_allows(without_white_space(s), c) == #[trigger] calculation_allows(s, c),
{
    let w = without_white_space(s);
    lemma_without_white_space_trim(s);
    lemma_without_white_space_shape(s);
    lemma_without_white_space_shape(w);
    lemma_trim_start_shape(w);
    assert(trim_start_seq(w) == w);
    lemma_trim_end_shape(w);
    assert(trim_end_seq(w) == w);
    assert(trim_seq(w) == w);
    assert(without_white_space(w) == w);
    if trim_seq(s).len() == 0 {
        assert(trim_seq(s) =~= Seq::<char>::empty());
        assert(without_white_space(trim_seq(s)).len() == 0);
    }
}

/// Some character of `s` is a decimal digit.
pub open spec fn has_digit(s: Seq<char>) -> bool {
    exists|i: int| 0 <= i < s.len() && is_decimal_digit(#[trigger] s[i])
}

/// The expression that the calculator evaluates for the input `input`: the trimmed input
/// with all white space taken out, when that is not empty and holds a digit.
pub open spec fn expression_of(input: Seq<char>) -> Option<Seq<char>> {
    let t = trim_seq(input);
    let e = without_white_space(t);
    if t.len() == 0 || e.len() == 0 || !has_digit(e) {
        None
    } else {
        Some(e)
    }
}

/// What evaluating an expression gave.
pub enum EvalOutcome {
    /// An integer.
    Int(i64),
    /// A floating-point number, as `{}` formats it.
    Float(String),
    /// A value that is not a number (a text, a truth value, a tuple or nothing).
    NotANumber,
    /// The expression could not be read or evaluated.
    Failed,
}

/// An evaluation outcome as plain values.
pub enum OutcomeView {
    Int(i64),
    Float(Seq<char>),
    NotANumber,
    Failed,
}

impl View for EvalOutcome {
    type V = OutcomeView;

    open spec fn view(&self) -> OutcomeView {
        match self {
            EvalOutcome::Int(n) => OutcomeView::Int(*n),
            EvalOutcome::Float(s) => OutcomeView::Float(s@),
            EvalOutcome::NotANumber => OutcomeView::NotANumber,
            EvalOutcome::Failed => OutcomeView::Failed,
        }
    }
}

/// The text that the calculator shows for an evaluation outcome: numbers in decimal,
/// nothing otherwise.
pub open spec fn outcome_text(o: OutcomeView) -> Option<Seq<char>> {
    match o {
        OutcomeView::Int(n) => Some(signed_decimal_seq(n as int)),
        OutcomeView::Float(s) => Some(s),
        OutcomeView::NotANumber => None,
        OutcomeView::Failed => None,
    }
}

/// Whether the calculator may show `c` for `input`. Nothing, when the input is no
/// expression or one with more than `MAX_OPERATORS` operators; the text of
/// `eval_outcome` of the expression when that does not depend on the platform's math
/// library; otherwise the text of some outcome.
pub open spec fn calculation_allows(input: Seq<char>, c: Option<Seq<char>>) -> bool {
    match expression_of(input) {
        Some(e) => if !evaluable(e) {
            c is None
        } else if platform_independent(e) {
            c == outcome_text(eval_outcome(e))
        } else {
            exists|o: OutcomeView| c == outcome_text(o)
        },
        None => c is None,
    }
}

/// The texts of an optional string.
pub open spec fn opt_view(o: Option<String>) -> Option<Seq<char>> {
    match o {
        Some(s) => Some(s@),
        None => None,
    }
}

/// The expression that the calculator would evaluate for `input`, if any.
pub fn calculator_expression(input: &str) -> (r: Option<String>)
    ensures
        opt_view(r) == expression_of(input@),
{
    let v = chars_of(input);
    let (a, b) = trim_bounds(&v, 0, v.len());
    assert(v@.subrange(0, v@.len() as int) =~= v@);
    let ghost t = v@.subrange(a as int, b as int);
    let mut e: Vec<char> = Vec::new();
    let mut digit = false;
    let mut i = a;
    assert(t.take(0) =~= Seq::<char>::empty());
    while i < b
        invariant
            a <= i <= b <= v.len(),
            t == v@.subrange(a as int, b as int),
            e@ == without_white_space(t.take(i - a)),
            digit == has_digit(e@),
        decreases b - i,
    {
        let c = v[i];
        assert(t.take(i - a + 1).drop_last() =~= t.take(i - a));
        assert(t.take(i - a + 1).last() == c);
        let ghost before = e@;
        if !is_whitespace(c) {
            e.push(c);
            if c >= '0' && c <= '9' {
                assert(e@[e@.len() - 1] == c);
                digit = true;
            } else {
                assert(has_digit(e@) == has_digit(before)) by {
                    if has_digit(e@) {
                        let k = choose|k: int| 0 <= k < e@.len() && is_decimal_digit(#[trigger] e@[k]);
                        assert(e@[k] == before[k]);
                    }
                    if has_digit(before) {
                        let k = choose|k: int| 0 <= k < before.len() && is_decimal_digit(#[trigger] before[k]);
                        assert(e@[k] == before[k]);
                    }
                }
            }
        }
        i = i + 1;
    }
    assert(t.take(b - a) =~= t);
    if a == b || e.len() == 0 || !digit {
        None
    } else {
        Some(string_of(&e))
    }
}

/// The text shown for an evaluation outcome: an integer in decimal, a float as
/// formatted, nothing for any other outcome.
pub fn calculation_text(o: &EvalOutcome) -> (r: Option<String>)
    ensures
        opt_view(r) == outcome_text(o@),
{
    match o {
        EvalOutcome::Int(n) => Some(i64_to_decimal(*n)),
        EvalOutcome::Float(s) => Some(s.clone()),
        EvalOutcome::NotANumber => None,
        EvalOutcome::Failed => None,
    }
}

/// The calculator: evaluates `input` as an arithmetic expression when, trimmed and with
/// its white space taken out, it is not empty, holds a digit and has at most
/// `MAX_OPERATORS` operators; the result is the value's text, or none when the input is
/// no such expression or does not evaluate to a number.
pub fn calculate(input: &str) -> (r: Option<String>)
    ensures
        calculation_allows(input@, opt_view(r)),
{
    match calculator_expression(input) {
        Some(expr) => {
            if !is_evaluable(expr.as_str()) {
                return None;
            }
            let outcome = evaluate(expr.as_str());
            let r = calculation_text(&outcome);
            assert(opt_view(r) == outcome_text(outcome@));
            r
        },
        None => None,
    }
}

} // verus!
