//! Condition expressions: `field operator value` against a JSON context.

use bpmn_engine::engine::evaluator::{evaluate_condition, evaluate_expression, resolve_field_path, ConditionOutcome, NumericOp};
use bpmn_engine::json_value::JsonValue;
use bpmn_engine::model::ConditionExpression;

/// The verdict of an outcome, reading numbers as `f64`.
fn holds(outcome: ConditionOutcome) -> bool {
    match outcome {
        ConditionOutcome::Decided(b) => b,
        ConditionOutcome::NumberEquals { number, operand, negated } => {
            let equal = match (number.parse::<f64>(), operand.parse::<f64>()) {
                (Ok(a), Ok(b)) => (a - b).abs() < f64::EPSILON,
                _ => false,
            };
            equal != negated
        },
        ConditionOutcome::NumberOrder { number, operand, op } => match (number.parse::<f64>(), operand.parse::<f64>()) {
            (Ok(a), Ok(b)) => match op {
                NumericOp::Greater => a > b,
                NumericOp::Less => a < b,
                NumericOp::GreaterOrEqual => a >= b,
                NumericOp::LessOrEqual => a <= b,
            },
            _ => false,
        },
        ConditionOutcome::TextEquals { .. } => unreachable!(),
    }
}

fn object(members: Vec<(&str, JsonValue)>) -> JsonValue {
    JsonValue::Object(members.into_iter().map(|(k, v)| (k.to_string(), v)).collect())
}

fn text(s: &str) -> JsonValue {
    JsonValue::String(s.to_string())
}

fn eval(expression: &str, context: &JsonValue) -> bool {
    holds(evaluate_expression(expression, context))
}

#[test]
fn test_eq_string() {
    let ctx = object(vec![("status", text("Abnormal"))]);
    assert!(eval("status = Abnormal", &ctx));
    assert!(eval("status == Abnormal", &ctx));
}

#[test]
fn test_eq_numeric() {
    let ctx = object(vec![("sales", JsonValue::Number("15000.0".to_string()))]);
    assert!(eval("sales > 10000", &ctx));
    assert!(eval("sales < 20000", &ctx));
    assert!(!eval("sales > 20000", &ctx));
}

#[test]
fn test_contains() {
    let ctx = object(vec![("tags", JsonValue::Array(vec![text("urgent"), text("review")]))]);
    assert!(eval("tags contains urgent", &ctx));
    assert!(eval("tags contains review", &ctx));
    assert!(!eval("tags contains unknown", &ctx));
}

#[test]
fn test_nested_field() {
    let ctx = object(vec![("site", object(vec![("region", text("South"))]))]);
    assert!(eval("site.region = South", &ctx));
    assert!(eval("site.region = south", &ctx));
}

#[test]
fn test_missing_field() {
    let ctx = object(vec![("status", text("ok"))]);
    assert!(!eval("nonexistent = value", &ctx));
}

#[test]
fn test_empty_body() {
    let ctx = object(vec![("status", text("ok"))]);
    assert!(!eval("", &ctx));
    assert!(!eval("   ", &ctx));
}

#[test]
fn not_equal_negates_equal() {
    let ctx = object(vec![("status", text("Open"))]);
    assert!(eval("status = open", &ctx));
    assert!(!eval("status != open", &ctx));
    assert!(eval("status != closed", &ctx));
}

#[test]
fn numeric_comparison_is_deferred_exactly() {
    let ctx = object(vec![("n", JsonValue::Number("5".to_string()))]);
    match evaluate_expression("n >= 5", &ctx) {
        ConditionOutcome::NumberOrder { number, operand, op } => {
            assert_eq!(number, "5");
            assert_eq!(operand, "5");
            assert_eq!(op, NumericOp::GreaterOrEqual);
        },
        _ => panic!("expected a numeric comparison"),
    }
    assert!(eval("n >= 5", &ctx));
    assert!(eval("n <= 5", &ctx));
    assert!(eval("n = 5", &ctx));
}

#[test]
fn booleans_and_null() {
    let ctx = object(vec![("ok", JsonValue::Bool(true)), ("none", JsonValue::Null)]);
    assert!(eval("ok = true", &ctx));
    assert!(!eval("ok = false", &ctx));
    assert!(eval("none = NULL", &ctx));
}

#[test]
fn quoted_operand_and_unknown_operator() {
    let ctx = object(vec![("status", text("approved"))]);
    assert!(eval("status = \"approved\"", &ctx));
    assert!(eval("status = 'approved'", &ctx));
    assert!(!eval("status ~ approved", &ctx));
    assert!(!eval("status =", &ctx));
}

#[test]
fn order_on_text_does_not_hold() {
    let ctx = object(vec![("status", text("10"))]);
    assert!(!eval("status > 5", &ctx));
}

#[test]
fn string_contains_ignores_case() {
    let ctx = object(vec![("title", text("Urgent Review"))]);
    assert!(eval("title contains REVIEW", &ctx));
    assert!(!eval("title contains later", &ctx));
}

#[test]
fn condition_body_is_evaluated() {
    let ctx = object(vec![("status", text("approved"))]);
    let yes = ConditionExpression { language: None, body: "status = approved".to_string() };
    let blank = ConditionExpression { language: None, body: "  ".to_string() };
    assert!(holds(evaluate_condition(&yes, &ctx)));
    assert!(!holds(evaluate_condition(&blank, &ctx)));
}

#[test]
fn field_path_resolution() {
    let ctx = object(vec![("site", object(vec![("region", text("South"))]))]);
    assert_eq!(resolve_field_path("site.region", &ctx), Some(text("South")));
    assert_eq!(resolve_field_path("site.missing", &ctx), None);
    assert_eq!(resolve_field_path("site.region.deeper", &ctx), None);
}

#[test]
fn documented_expression_forms() {
    let ctx = object(vec![
        ("status", text("approved")),
        ("estimated_sales", JsonValue::Number("12500".to_string())),
        ("tags", JsonValue::Array(vec![text("urgent")])),
        ("site", object(vec![("region", text("South"))])),
    ]);
    assert!(eval("status = approved", &ctx));
    assert!(eval("estimated_sales > 10000", &ctx));
    assert!(eval("tags contains urgent", &ctx));
    assert!(eval("site.region = South", &ctx));
}
