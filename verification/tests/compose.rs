use garden::compose::compose_tree;
use garden::compose::flatten_template;
use garden::model::Expression;
use garden::model::MultiExpression;
use garden::model::Template;
use garden::model::Tree;

fn var(name: &str, expr: &str) -> Expression {
    Expression::new(name.to_string(), expr.to_string())
}

fn multi(name: &str, values: &[&str]) -> MultiExpression {
    let mut exprs = Vec::new();
    for v in values {
        exprs.push(Expression::new(name.to_string(), v.to_string()));
    }
    MultiExpression::new(name.to_string(), exprs)
}

fn template(name: &str, extend: &[&str]) -> Template {
    let mut t = Template::new(name.to_string());
    for e in extend {
        t.extend.push(e.to_string());
    }
    t
}

fn names(vars: &[Expression]) -> Vec<String> {
    vars.iter().map(|e| e.name.clone()).collect()
}

#[test]
fn flattening_is_additive_and_ordered() {
    let mut t1 = template("template1", &[]);
    t1.variables.push(var("foo", "one"));
    t1.variables.push(var("bar", "two"));
    let mut t2 = template("template2", &[]);
    t2.variables.push(var("baz", "three"));
    let mut t3 = template("template3", &["template1", "template2"]);
    t3.variables.push(var("boo", "zero"));
    let catalog = vec![t1, t2, t3];

    let flat = flatten_template(&catalog, 2);
    // k own entries + |flatten(T1)| + |flatten(T2)|, own entries first.
    assert_eq!(flat.variables.len(), 1 + 2 + 1);
    assert_eq!(
        names(&flat.variables),
        vec!["boo".to_string(), "foo".to_string(), "bar".to_string(), "baz".to_string()]
    );
    assert_eq!(flat.variables[0].expr, "zero");
    assert!(flat.extend.is_empty());
}

#[test]
fn diamond_inheritance_keeps_duplicates() {
    let mut base = template("base", &[]);
    base.variables.push(var("shared", "value"));
    let left = template("left", &["base"]);
    let right = template("right", &["base"]);
    let top = template("top", &["left", "right"]);
    let catalog = vec![base, left, right, top];

    let flat = flatten_template(&catalog, 3);
    // The shared ancestor is revisited and re-appended, never deduplicated.
    assert_eq!(flat.variables.len(), 2);
    assert_eq!(names(&flat.variables), vec!["shared".to_string(), "shared".to_string()]);
}

#[test]
fn unknown_extend_name_contributes_nothing() {
    let mut t = template("t", &["nowhere"]);
    t.variables.push(var("own", "x"));
    let catalog = vec![t];
    let flat = flatten_template(&catalog, 0);
    assert_eq!(flat.variables.len(), 1);
}

#[test]
fn cyclic_extend_is_cut_off() {
    let mut a = template("a", &["b"]);
    a.variables.push(var("va", "1"));
    let mut b = template("b", &["a"]);
    b.variables.push(var("vb", "2"));
    let catalog = vec![a, b];
    let flat = flatten_template(&catalog, 0);
    // Terminates; a's own entry first, then what the budget allowed.
    assert_eq!(flat.variables[0].name, "va");
    assert!(flat.variables.len() >= 2);
}

#[test]
fn flattening_covers_all_four_fields() {
    let mut t1 = template("t1", &[]);
    t1.environment.push(multi("PATH+", &["/t1/bin"]));
    t1.commands.push(multi("build", &["make t1"]));
    t1.gitconfig.push(var("user.name", "T One"));
    let mut t3 = template("t3", &["t1"]);
    t3.environment.push(multi("ENV=", &["own-env"]));
    t3.commands.push(multi("test", &["make test"]));
    t3.gitconfig.push(var("user.email", "t3@example.com"));
    let catalog = vec![t1, t3];

    let flat = flatten_template(&catalog, 1);
    assert_eq!(flat.environment.len(), 2);
    assert_eq!(flat.environment[0].name, "ENV=");
    assert_eq!(flat.environment[1].name, "PATH+");
    assert_eq!(flat.commands.len(), 2);
    assert_eq!(flat.commands[0].name, "test");
    assert_eq!(flat.gitconfig.len(), 2);
    assert_eq!(flat.gitconfig[0].name, "user.email");
}

#[test]
fn tree_composition_merge_directions() {
    let mut t = template("tpl", &[]);
    t.variables.push(var("tpl_var", "from-template"));
    t.environment.push(multi("TPL_ENV", &["tpl"]));
    t.commands.push(multi("tpl_cmd", &["echo tpl"]));
    t.gitconfig.push(var("tpl.key", "tpl"));
    let catalog = vec![t];

    let mut tree = Tree::new("cola".to_string());
    tree.templates.push("tpl".to_string());
    tree.variables.push(var("own_var", "from-tree"));
    tree.environment.push(multi("OWN_ENV", &["own"]));
    tree.commands.push(multi("own_cmd", &["echo own"]));
    tree.gitconfig.push(var("own.key", "own"));

    let composed = compose_tree(&tree, &catalog);
    assert_eq!(composed.name, "cola");
    // Variables: the tree's own declarations first.
    assert_eq!(names(&composed.variables), vec!["own_var".to_string(), "tpl_var".to_string()]);
    // Environment: template-sourced entries first.
    assert_eq!(composed.environment.len(), 2);
    assert_eq!(composed.environment[0].name, "TPL_ENV");
    assert_eq!(composed.environment[1].name, "OWN_ENV");
    // Commands: the tree's own declarations first.
    assert_eq!(composed.commands.len(), 2);
    assert_eq!(composed.commands[0].name, "own_cmd");
    assert_eq!(composed.commands[1].name, "tpl_cmd");
    // Git configuration: template-sourced entries first.
    assert_eq!(composed.gitconfig[0].name, "tpl.key");
    assert_eq!(composed.gitconfig[1].name, "own.key");
}

#[test]
fn stamping_gives_independent_copies() {
    let mut t = template("tpl", &[]);
    t.variables.push(var("v", "${shared}"));
    let catalog = vec![t];

    let mut tree_a = Tree::new("a".to_string());
    tree_a.templates.push("tpl".to_string());
    let mut tree_b = Tree::new("b".to_string());
    tree_b.templates.push("tpl".to_string());
    let mut composed_a = compose_tree(&tree_a, &catalog);
    let composed_b = compose_tree(&tree_b, &catalog);
    // Memoizing one tree's copy leaves the other's untouched.
    composed_a.variables[0].resolved = Some("a-side".to_string());
    assert!(composed_b.variables[0].resolved.is_none());
    assert_eq!(composed_b.variables[0].expr, "${shared}");
}

#[test]
fn tree_path_defaults_to_name() {
    let tree = Tree::new("git-cola".to_string());
    assert_eq!(tree.path.expr, "git-cola");
    assert!(tree.path.resolved.is_none());
}
