use garden::model::Configuration;
use garden::model::Expression;
use garden::model::Garden;
use garden::model::Tree;
use garden::model::TreeQuery;
use garden::query::garden_trees;
use garden::query::resolve_trees;
use garden::query::tree_context;
use garden::query::tree_from_name;
use garden::query::tree_from_path;
use garden::query::trees_from_pattern;

fn tree_with_path(name: &str, path: &str) -> Tree {
    let mut t = Tree::new(name.to_string());
    t.path = Expression::new("path".to_string(), path.to_string());
    t.path.resolved = Some(path.to_string());
    t
}

fn garden_with(name: &str, groups: &[&str], trees: &[&str]) -> Garden {
    let mut g = Garden::new(name.to_string());
    for p in groups {
        g.groups.push(p.to_string());
    }
    for p in trees {
        g.trees.push(p.to_string());
    }
    g
}

/// A configuration with trees `git`, `cola`, `qtpy`, a group `grp`
/// holding `git` and `cola`, and a garden `gdn` drawing the group plus
/// `qtpy` directly.
fn sample_config() -> Configuration {
    let mut cfg = Configuration::new();
    cfg.add_tree(Tree::new("git".to_string()));
    cfg.add_tree(Tree::new("cola".to_string()));
    cfg.add_tree(Tree::new("qtpy".to_string()));
    cfg.add_group("grp".to_string(), vec!["git".to_string(), "cola".to_string()]);
    cfg.add_garden(garden_with("gdn", &["grp"], &["qtpy"]));
    cfg
}

#[test]
fn query_sigils_narrow_the_kind() {
    let q = TreeQuery::new("@tree");
    assert!(q.include_trees && !q.include_groups && !q.include_gardens && !q.is_default);
    assert_eq!(q.pattern, "tree");
    assert_eq!(q.query, "@tree");
    let q = TreeQuery::new("%group");
    assert!(q.include_groups && !q.include_trees && !q.include_gardens);
    let q = TreeQuery::new(":garden");
    assert!(q.include_gardens && !q.include_trees && !q.include_groups);
    let q = TreeQuery::new("plain");
    assert!(q.include_gardens && q.include_groups && q.include_trees && q.is_default);
    assert_eq!(q.pattern, "plain");
}

#[test]
fn garden_expansion_draws_groups_then_trees() {
    let cfg = sample_config();
    let contexts = garden_trees(&cfg, "gdn");
    let found: Vec<usize> = contexts.iter().map(|c| c.tree).collect();
    assert_eq!(found, vec![0, 1, 2]);
    // Group-sourced contexts carry the garden and group indices.
    assert_eq!(contexts[0].garden, Some(0));
    assert_eq!(contexts[0].group, Some(0));
    // Directly listed trees carry the garden index only.
    assert_eq!(contexts[2].garden, Some(0));
    assert_eq!(contexts[2].group, None);
}

#[test]
fn gardens_outrank_groups_and_trees() {
    let mut cfg = Configuration::new();
    cfg.add_tree(Tree::new("X".to_string()));
    cfg.add_tree(Tree::new("member".to_string()));
    cfg.add_group("X".to_string(), vec!["member".to_string()]);
    cfg.add_garden(garden_with("X", &[], &["member"]));

    let contexts = resolve_trees(&cfg, "X");
    // The garden named X wins: its expansion is the tree `member`
    // tagged with the garden's index, not the group's expansion and not
    // the tree named X.
    assert_eq!(contexts.len(), 1);
    assert_eq!(contexts[0].tree, 1);
    assert_eq!(contexts[0].garden, Some(0));
    assert_eq!(contexts[0].group, None);
}

#[test]
fn groups_outrank_trees() {
    let mut cfg = Configuration::new();
    cfg.add_tree(Tree::new("X".to_string()));
    cfg.add_tree(Tree::new("member".to_string()));
    cfg.add_group("X".to_string(), vec!["member".to_string()]);

    let contexts = resolve_trees(&cfg, "X");
    assert_eq!(contexts.len(), 1);
    assert_eq!(contexts[0].tree, 1);
    assert_eq!(contexts[0].garden, None);
    assert_eq!(contexts[0].group, Some(0));
}

#[test]
fn tree_query_matches_by_name() {
    let cfg = sample_config();
    let contexts = resolve_trees(&cfg, "cola");
    assert_eq!(contexts.len(), 1);
    assert_eq!(contexts[0].tree, 1);
    assert_eq!(contexts[0].garden, None);
    assert_eq!(contexts[0].group, None);
}

#[test]
fn glob_patterns_select_matching_names() {
    let mut cfg = Configuration::new();
    cfg.add_tree(Tree::new("tree1".to_string()));
    cfg.add_tree(Tree::new("tree2".to_string()));
    cfg.add_tree(Tree::new("sub".to_string()));
    let contexts = resolve_trees(&cfg, "@tree*");
    let found: Vec<usize> = contexts.iter().map(|c| c.tree).collect();
    assert_eq!(found, vec![0, 1]);
    let one = trees_from_pattern(&cfg, "tree?", None, None);
    assert_eq!(one.len(), 2);
    let none = trees_from_pattern(&cfg, "z*", None, None);
    assert!(none.is_empty());
}

#[test]
fn invalid_pattern_is_skipped_not_fatal() {
    let mut cfg = Configuration::new();
    cfg.add_tree(Tree::new("a***b".to_string()));
    // `a***b` is not a valid glob pattern; the query yields nothing
    // rather than failing.
    let contexts = resolve_trees(&cfg, "@a***b");
    assert!(contexts.is_empty());
}

#[test]
fn fallback_to_path_resolves_by_canonical_location() {
    let mut cfg = Configuration::new();
    cfg.add_tree(tree_with_path("temporary", "/tmp"));
    // No garden, group or tree is named `/tmp`; the configured tree's
    // canonical path matches it.
    let contexts = resolve_trees(&cfg, "/tmp");
    assert_eq!(contexts.len(), 1);
    assert_eq!(contexts[0].tree, 0);
    assert_eq!(contexts[0].garden, None);
    assert_eq!(contexts[0].group, None);
}

#[test]
fn fallback_compares_canonical_forms_not_text() {
    let mut cfg = Configuration::new();
    cfg.add_tree(tree_with_path("temporary", "/tmp"));
    // `/tmp/.` names the same directory only after canonicalization.
    let ctx = tree_from_path(&cfg, "/tmp/.");
    assert!(ctx.is_some());
    assert_eq!(ctx.unwrap().tree, 0);
    let miss = tree_from_path(&cfg, "/nonexistent/path/nowhere");
    assert!(miss.is_none());
}

#[test]
fn scoped_query_disables_path_fallback() {
    let mut cfg = Configuration::new();
    cfg.add_tree(tree_with_path("temporary", "/tmp"));
    let contexts = resolve_trees(&cfg, "@/tmp");
    assert!(contexts.is_empty());
}

#[test]
fn tree_from_name_is_exact() {
    let cfg = sample_config();
    let ctx = tree_from_name(&cfg, "qtpy", None, None);
    assert_eq!(ctx.unwrap().tree, 2);
    let miss = tree_from_name(&cfg, "qt", None, None);
    assert!(miss.is_none());
}

#[test]
fn tree_context_resolves_tree_and_garden() {
    let cfg = sample_config();
    let ctx = tree_context(&cfg, "git", None).unwrap();
    assert_eq!(ctx.tree, 0);
    assert_eq!(ctx.garden, None);
    let ctx = tree_context(&cfg, "git", Some("gdn".to_string())).unwrap();
    assert_eq!(ctx.tree, 0);
    assert_eq!(ctx.garden, Some(0));
}

#[test]
fn tree_context_distinguishes_the_three_errors() {
    let cfg = sample_config();
    let e = tree_context(&cfg, "missing", None).unwrap_err();
    assert_eq!(e, "unable to find 'missing': No tree exists with that name");
    let e = tree_context(&cfg, "git", Some("nowhere".to_string())).unwrap_err();
    assert_eq!(e, "unable to find 'nowhere': No garden exists with that name");
    let mut cfg2 = sample_config();
    cfg2.add_tree(Tree::new("outsider".to_string()));
    let e = tree_context(&cfg2, "outsider", Some("gdn".to_string())).unwrap_err();
    assert_eq!(e, "invalid arguments: 'outsider' is not part of the 'gdn' garden");
}

#[test]
fn empty_resolution_is_not_an_error() {
    let cfg = Configuration::new();
    let contexts = resolve_trees(&cfg, "anything");
    assert!(contexts.is_empty());
}

#[test]
fn configuration_defaults() {
    let cfg = Configuration::new();
    assert_eq!(cfg.shell, "zsh");
    assert!(cfg.environment_variables);
    assert!(!cfg.verbose);
}
