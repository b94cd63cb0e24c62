use universal_launcher::calc::{calculate, calculation_text, calculator_expression, EvalOutcome};
use universal_launcher::evaluator::{
    abs_guard, is_evaluable, is_platform_independent, shift_guard, substring_guard,
    substring_splits, Guard, MAX_OPERATORS,
};

#[test]
fn calculates_integers() {
    assert_eq!(calculate("2+3").as_deref(), Some("5"));
    assert_eq!(calculate(" 2 * ( 3 + 4 ) ").as_deref(), Some("14"));
    assert_eq!(calculate("7/2").as_deref(), Some("3"));
    assert_eq!(calculate("0-9").as_deref(), Some("-9"));
}

#[test]
fn calculates_floats() {
    assert_eq!(calculate("2.5*2").as_deref(), Some("5"));
    assert_eq!(calculate("1.5+1").as_deref(), Some("2.5"));
}

#[test]
fn rejects_non_expressions() {
    assert_eq!(calculate(""), None);
    assert_eq!(calculate("   "), None);
    assert_eq!(calculate("firefox"), None);
    assert_eq!(calculate("1 +"), None);
    assert_eq!(calculate("1 == 1"), None);
}

#[test]
fn expression_is_stripped() {
    assert_eq!(calculator_expression(" 1 + 2\t* 3 ").as_deref(), Some("1+2*3"));
    assert_eq!(calculator_expression("abc"), None);
    assert_eq!(calculator_expression("\u{3000}"), None);
}

#[test]
fn outcome_texts() {
    assert_eq!(calculation_text(&EvalOutcome::Int(-12)).as_deref(), Some("-12"));
    assert_eq!(calculation_text(&EvalOutcome::Float("0.5".to_string())).as_deref(), Some("0.5"));
    assert_eq!(calculation_text(&EvalOutcome::NotANumber), None);
    assert_eq!(calculation_text(&EvalOutcome::Failed), None);
}

#[test]
fn white_space_is_ignored() {
    assert_eq!(calculate("1 2").as_deref(), Some("12"));
    assert_eq!(calculate(" 6 /\t3 "), calculate("6/3"));
    assert_eq!(calculate("2 . 5 + 1").as_deref(), Some("3.5"));
}

#[test]
fn power_and_math_functions() {
    assert_eq!(calculate("2^10").as_deref(), Some("1024"));
    assert_eq!(calculate("math::sqrt(16)").as_deref(), Some("4"));
    assert!(!is_platform_independent("2^3"));
    assert!(!is_platform_independent("math::ln(2)"));
    assert!(!is_platform_independent("math::abs(1)+math::ln(2)"));
    assert!(is_platform_independent("math::abs(-2)*3"));
    assert!(is_platform_independent("2*3"));
}

#[test]
fn guarded_builtins_evaluate() {
    assert_eq!(calculate("shl(1,2)").as_deref(), Some("4"));
    assert_eq!(calculate("shr(8, 1)").as_deref(), Some("4"));
    assert_eq!(calculate("shl(1, 63)").as_deref(), Some("-9223372036854775808"));
    assert_eq!(calculate("math::abs(-3)").as_deref(), Some("3"));
    assert_eq!(calculate("math::abs(-2.5)").as_deref(), Some("2.5"));
    assert_eq!(calculate("len(str::substring(\"xä1\", 0, 1))").as_deref(), Some("1"));
    assert_eq!(calculate("len(str::substring(\"ab1\", 1))").as_deref(), Some("2"));
    assert_eq!(calculate("shl(1, 2.0)"), None);
    assert_eq!(calculate("str::substring(\"ab1\", 3, 1)"), None);
}

#[test]
fn guards_fail_where_builtins_would_panic() {
    assert_eq!(calculate("shl(1, 70)"), None);
    assert_eq!(calculate("shr(8, -1)"), None);
    assert_eq!(calculate("math::abs(-9223372036854775807-1)"), None);
    assert_eq!(calculate("len(str::substring(\"xä1\", 0, 2))"), None);
    assert_eq!(calculate("len(str::substring(\"ä1\", 1))"), None);
}

#[test]
fn guard_decisions() {
    assert!(matches!(shift_guard(Some((1, 2))), Guard::Builtin));
    assert!(matches!(shift_guard(Some((1, 64))), Guard::Refuse));
    assert!(matches!(shift_guard(Some((1, -1))), Guard::Refuse));
    assert!(matches!(shift_guard(None), Guard::Builtin));
    assert!(matches!(abs_guard(Some(i64::MIN)), Guard::Refuse));
    assert!(matches!(abs_guard(Some(i64::MIN + 1)), Guard::Builtin));
    assert!(matches!(abs_guard(None), Guard::Builtin));
    assert!(matches!(substring_guard(Some(("xä".to_string(), 0, Some(2)))), Guard::Refuse));
    assert!(matches!(substring_guard(Some(("xä".to_string(), 0, Some(3)))), Guard::Builtin));
    assert!(matches!(substring_guard(None), Guard::Builtin));
}

#[test]
fn substring_offsets() {
    assert!(!substring_splits("xä", 0, Some(1)));
    assert!(substring_splits("xä", 2, None));
    assert!(!substring_splits("xä", 1, None));
    assert!(!substring_splits("x€😀", 1, Some(4)));
    assert!(substring_splits("x€😀", 1, Some(5)));
    assert!(!substring_splits("x€😀", 4, Some(8)));
    assert!(!substring_splits("xä", 0, Some(9)));
    assert!(!substring_splits("xä", -1, Some(2)));
    assert!(!substring_splits("xä", 2, Some(1)));
}

#[test]
fn long_expressions() {
    let nested = format!("{}7{}", "(".repeat(MAX_OPERATORS / 2), ")".repeat(MAX_OPERATORS / 2));
    assert!(is_evaluable(&nested));
    assert_eq!(calculate(&nested).as_deref(), Some("7"));
    let sum = format!("1{}", "+1".repeat(MAX_OPERATORS));
    assert!(is_evaluable(&sum));
    assert_eq!(calculate(&sum), Some((MAX_OPERATORS + 1).to_string()));
    let too_deep = format!("1{}", "+1".repeat(MAX_OPERATORS + 1));
    assert!(!is_evaluable(&too_deep));
    assert_eq!(calculate(&too_deep), None);
    let long_number = format!("{}+1", "1".repeat(5000));
    assert!(is_evaluable(&long_number));
}

#[test]
fn integer_overflow_fails() {
    assert_eq!(calculate("9223372036854775807+1"), None);
    assert_eq!(calculate("1/0"), None);
}
