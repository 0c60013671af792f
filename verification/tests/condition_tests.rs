use fuzz_init::condition::{convert_condition_to_handlebars, evaluate_condition};
use fuzz_init::context::RenderContext;

fn ctx_ab(a: bool, b: &str) -> RenderContext {
    let mut ctx = RenderContext::new();
    ctx.push_flag("a".to_string(), a);
    ctx.push_text("b".to_string(), b.to_string());
    ctx
}

#[test]
fn and_condition_truth_table() {
    let cond = "a == true && b == 'x'";
    assert_eq!(evaluate_condition(cond, &ctx_ab(true, "x")), true);
    assert_eq!(evaluate_condition(cond, &ctx_ab(true, "y")), false);
    assert_eq!(evaluate_condition(cond, &ctx_ab(false, "x")), false);
    assert_eq!(evaluate_condition(cond, &ctx_ab(false, "y")), false);
}

#[test]
fn or_condition_truth_table() {
    let cond = "a == true || b == 'x'";
    assert_eq!(evaluate_condition(cond, &ctx_ab(true, "x")), true);
    assert_eq!(evaluate_condition(cond, &ctx_ab(true, "y")), true);
    assert_eq!(evaluate_condition(cond, &ctx_ab(false, "x")), true);
    assert_eq!(evaluate_condition(cond, &ctx_ab(false, "y")), false);
}

#[test]
fn integration_condition_matches_context() {
    let mut make_ctx = RenderContext::new();
    make_ctx.push_text("integration".to_string(), "make".to_string());
    let mut cmake_ctx = RenderContext::new();
    cmake_ctx.push_text("integration".to_string(), "cmake".to_string());
    assert_eq!(evaluate_condition("integration == 'cmake'", &make_ctx), false);
    assert_eq!(evaluate_condition("integration == 'cmake'", &cmake_ctx), true);
}

#[test]
fn malformed_condition_is_false() {
    let ctx = ctx_ab(true, "x");
    assert_eq!(evaluate_condition("foo <> bar", &ctx), false);
    assert_eq!(evaluate_condition("garbage", &ctx), false);
    assert_eq!(evaluate_condition("a = true", &ctx), false);
    assert_eq!(evaluate_condition("", &ctx), false);
    assert_eq!(evaluate_condition("a == 'x' trailing", &ctx), false);
}

#[test]
fn missing_variable_is_false() {
    let ctx = RenderContext::new();
    assert_eq!(evaluate_condition("missing == 'x'", &ctx), false);
    assert_eq!(evaluate_condition("missing == true", &ctx), false);
}

#[test]
fn wrongly_typed_binding_is_false() {
    let mut ctx = RenderContext::new();
    ctx.push_text("v".to_string(), "true".to_string());
    assert_eq!(evaluate_condition("v == true", &ctx), false);
    let mut ctx2 = RenderContext::new();
    ctx2.push_flag("w".to_string(), true);
    assert_eq!(evaluate_condition("w == 'true'", &ctx2), false);
}

#[test]
fn bool_literal_forms() {
    let mut off = RenderContext::new();
    off.push_flag("minimal".to_string(), false);
    let mut on = RenderContext::new();
    on.push_flag("minimal".to_string(), true);
    assert_eq!(evaluate_condition("minimal == false", &off), true);
    assert_eq!(evaluate_condition("minimal == false", &on), false);
    assert_eq!(evaluate_condition("minimal == true", &on), true);
}

#[test]
fn whitespace_around_atoms_is_ignored() {
    let mut ctx = RenderContext::new();
    ctx.push_text("integration".to_string(), "cmake".to_string());
    assert_eq!(evaluate_condition("  integration   ==   'cmake'  ", &ctx), true);
}

#[test]
fn convert_string_equality() {
    assert_eq!(
        convert_condition_to_handlebars("integration == 'cmake'"),
        "(eq integration 'cmake')"
    );
}

#[test]
fn convert_bool_equality() {
    assert_eq!(convert_condition_to_handlebars("minimal == false"), "(eq minimal false)");
    assert_eq!(convert_condition_to_handlebars("minimal == true"), "(eq minimal true)");
}

#[test]
fn convert_and_condition() {
    assert_eq!(
        convert_condition_to_handlebars("a == true && b == 'x'"),
        "(and (eq a true) (eq b 'x'))"
    );
}

#[test]
fn convert_or_condition() {
    assert_eq!(
        convert_condition_to_handlebars("a == true || b == 'x'"),
        "(or (eq a true) (eq b 'x'))"
    );
}

#[test]
fn convert_unknown_is_false_literal() {
    assert_eq!(convert_condition_to_handlebars("foo <> bar"), "false");
}

#[test]
fn convert_mixed_splits_and_first() {
    assert_eq!(
        convert_condition_to_handlebars("a == true && b == 'x' || c == 'y'"),
        "(and (eq a true) (or (eq b 'x') (eq c 'y')))"
    );
}

#[test]
fn mixed_and_or_evaluates_textually() {
    let cond = "a == true && b == 'x' || c == 'y'";
    let mut ctx = RenderContext::new();
    ctx.push_flag("a".to_string(), true);
    ctx.push_text("b".to_string(), "z".to_string());
    ctx.push_text("c".to_string(), "y".to_string());
    assert_eq!(evaluate_condition(cond, &ctx), true);
    let mut ctx2 = RenderContext::new();
    ctx2.push_flag("a".to_string(), false);
    ctx2.push_text("b".to_string(), "x".to_string());
    ctx2.push_text("c".to_string(), "y".to_string());
    assert_eq!(evaluate_condition(cond, &ctx2), false);
}

#[test]
fn later_binding_wins() {
    let mut ctx = RenderContext::new();
    ctx.push_text("v".to_string(), "first".to_string());
    ctx.push_text("v".to_string(), "second".to_string());
    assert_eq!(evaluate_condition("v == 'second'", &ctx), true);
    assert_eq!(evaluate_condition("v == 'first'", &ctx), false);
}
