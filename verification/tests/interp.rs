use garden::interp::resolve;
use garden::interp::resolve_expression;
use garden::model::Expression;

fn scope(entries: &[(&str, &str)]) -> Vec<Expression> {
    let mut vars = Vec::new();
    for (name, expr) in entries {
        vars.push(Expression::new(name.to_string(), expr.to_string()));
    }
    vars
}

#[test]
fn resolved_absent_after_parsing() {
    let e = Expression::new("foo".to_string(), "foo_value".to_string());
    assert_eq!(e.name, "foo");
    assert_eq!(e.expr, "foo_value");
    assert!(e.resolved.is_none());
}

#[test]
fn plain_text_resolves_to_itself() {
    let mut vars = scope(&[("foo", "foo_value")]);
    let r = resolve(&mut vars, 0);
    assert_eq!(r, "foo_value");
}

#[test]
fn reference_resolves_through_scope() {
    let mut vars = scope(&[("foo", "foo_value"), ("bar", "${foo}")]);
    let r = resolve(&mut vars, 1);
    assert_eq!(r, "foo_value");
    assert_eq!(vars[1].expr, "${foo}");
    assert_eq!(vars[1].resolved.as_deref(), Some("foo_value"));
}

#[test]
fn reference_chain_resolves() {
    let mut vars = scope(&[("a", "${b}/x"), ("b", "${c}"), ("c", "root")]);
    let r = resolve(&mut vars, 0);
    assert_eq!(r, "root/x");
    assert_eq!(vars[1].resolved.as_deref(), Some("root"));
    assert_eq!(vars[2].resolved.as_deref(), Some("root"));
}

#[test]
fn resolution_is_idempotent() {
    let mut vars = scope(&[("foo", "foo_value"), ("bar", "pre-${foo}-post")]);
    let first = resolve(&mut vars, 1);
    let memo_after_first = vars[1].resolved.clone();
    let second = resolve(&mut vars, 1);
    assert_eq!(first, second);
    assert_eq!(first, "pre-foo_value-post");
    assert_eq!(vars[1].resolved, memo_after_first);
}

#[test]
fn memoized_value_wins_over_rescanning() {
    let mut vars = scope(&[("foo", "${bar}"), ("bar", "old")]);
    let first = resolve(&mut vars, 0);
    assert_eq!(first, "old");
    // A memo, once present, is returned as is.
    vars[0].resolved = Some("kept".to_string());
    let second = resolve(&mut vars, 0);
    assert_eq!(second, "kept");
}

#[test]
fn unknown_reference_is_kept_literal() {
    let mut vars = scope(&[("v", "prefix-${missing}-suffix")]);
    let r = resolve(&mut vars, 0);
    assert_eq!(r, "prefix-${missing}-suffix");
}

#[test]
fn unclosed_reference_is_ordinary_text() {
    let mut vars = scope(&[("v", "a${open"), ("open", "x")]);
    let r = resolve(&mut vars, 0);
    assert_eq!(r, "a${open");
}

#[test]
fn empty_expression_resolves_empty() {
    let mut vars = scope(&[("v", "")]);
    let r = resolve(&mut vars, 0);
    assert_eq!(r, "");
    assert_eq!(vars[0].resolved.as_deref(), Some(""));
}

#[test]
fn cycle_resolves_to_literal_marker() {
    let mut vars = scope(&[("a", "${b}"), ("b", "${a}")]);
    let ra = resolve(&mut vars, 0);
    assert_eq!(ra, "${b}");
    let rb = resolve(&mut vars, 1);
    assert_eq!(rb, "${b}");
}

#[test]
fn self_cycle_resolves_to_literal_marker() {
    let mut vars = scope(&[("a", "${a}")]);
    let r = resolve(&mut vars, 0);
    assert_eq!(r, "${a}");
}

#[test]
fn first_definition_wins_on_duplicate_names() {
    let mut vars = scope(&[("v", "${x}"), ("x", "first"), ("x", "second")]);
    let r = resolve(&mut vars, 0);
    assert_eq!(r, "first");
}

#[test]
fn outside_expression_resolves_against_scope() {
    let mut vars = scope(&[("TREE_PATH", "/src/cola"), ("prefix", "${TREE_PATH}/install")]);
    let mut env = Expression::new("PYTHONPATH".to_string(), "${TREE_PATH}/lib".to_string());
    let r = resolve_expression(&mut vars, &mut env);
    assert_eq!(r, "/src/cola/lib");
    assert_eq!(env.resolved.as_deref(), Some("/src/cola/lib"));
    // The referenced scope entry was memoized on demand.
    assert_eq!(vars[0].resolved.as_deref(), Some("/src/cola"));
    // A second resolution is answered from the expression's own memo.
    vars[0].resolved = Some("changed".to_string());
    let again = resolve_expression(&mut vars, &mut env);
    assert_eq!(again, "/src/cola/lib");
}

#[test]
fn two_references_in_one_expression() {
    let mut vars = scope(&[("greet", "${a}, ${b}!"), ("a", "hello"), ("b", "world")]);
    let r = resolve(&mut vars, 0);
    assert_eq!(r, "hello, world!");
}
