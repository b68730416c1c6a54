//! The template composer: flattens a template's own declarations with those
//! inherited — possibly diamond-style — from the templates it extends, and
//! stamps template contents into trees as independently owned copies.
//!
//! Flattening is additive and never deduplicates: a template's own entries
//! come first, then the flattened entries of each extended template in
//! listed order, so the most specific declarations sort first. Stamping
//! into a tree follows one documented rule per field: variables and
//! commands keep the tree's own inline declarations ahead of
//! template-sourced entries, while environment and git configuration apply
//! template-sourced entries ahead of the tree's own.

use crate::model::Expression;
use crate::model::ExprView;
use crate::model::MultiExpression;
use crate::model::MultiView;
use crate::model::Template;
use crate::model::TemplateView;
use crate::model::Tree;
use vstd::prelude::*;

verus! {

/// The views of a sequence of expressions.
pub open spec fn evs(s: Seq<Expression>) -> Seq<ExprView> {
    s.map_values(|e: Expression| e@)
}

/// The views of a sequence of multi-expressions.
pub open spec fn mvs(s: Seq<MultiExpression>) -> Seq<MultiView> {
    s.map_values(|m: MultiExpression| m@)
}

/// The views of a template catalog.
pub open spec fn tpl_views(ts: Seq<Template>) -> Seq<TemplateView> {
    ts.map_values(|t: Template| t@)
}

/// The views of a list of names.
pub open spec fn name_views(ns: Seq<String>) -> Seq<Seq<char>> {
    ns.map_values(|n: String| n@)
}

/// A flattened bundle: the four composable fields of a template.
pub struct FlatView {
    pub variables: Seq<ExprView>,
    pub environment: Seq<MultiView>,
    pub commands: Seq<MultiView>,
    pub gitconfig: Seq<ExprView>,
}

/// The empty bundle.
pub open spec fn empty_flat() -> FlatView {
    FlatView {
        variables: Seq::empty(),
        environment: Seq::empty(),
        commands: Seq::empty(),
        gitconfig: Seq::empty(),
    }
}

/// Field-wise concatenation of two bundles.
pub open spec fn flat_concat(a: FlatView, b: FlatView) -> FlatView {
    FlatView {
        variables: a.variables + b.variables,
        environment: a.environment + b.environment,
        commands: a.commands + b.commands,
        gitconfig: a.gitconfig + b.gitconfig,
    }
}

/// A template's own directly declared entries.
pub open spec fn own_flat(t: TemplateView) -> FlatView {
    FlatView {
        variables: t.variables,
        environment: t.environment,
        commands: t.commands,
        gitconfig: t.gitconfig,
    }
}

/// The first catalog entry with the given name.
pub open spec fn lookup_template(ts: Seq<TemplateView>, name: Seq<char>, k: int) -> Option<int>
    decreases ts.len() - k,
{
    if k < 0 || k >= ts.len() {
        None
    } else if ts[k].name == name {
        Some(k)
    } else {
        lookup_template(ts, name, k + 1)
    }
}

/// What flattening the catalog entry at `i` produces: its own entries
/// ahead of the flattened entries inherited, in `extend`-list order,
/// duplicates kept. `depth` bounds the recursion through `extend`; the
/// catalog's size is ample for any acyclic inheritance graph, while a
/// cyclic `extend` chain is cut off and contributes nothing further.
pub open spec fn flatten_tpl(ts: Seq<TemplateView>, i: int, depth: nat) -> FlatView
    decreases depth, 1int, 0int,
{
    if i < 0 || i >= ts.len() {
        empty_flat()
    } else {
        flat_concat(own_flat(ts[i]), flatten_names(ts, ts[i].extend, 0, depth))
    }
}

/// The concatenated flattenings of the named templates from position `k`
/// on; a name naming no template contributes nothing.
pub open spec fn flatten_names(ts: Seq<TemplateView>, names: Seq<Seq<char>>, k: int, depth: nat) -> FlatView
    decreases depth, 0int, names.len() - k,
{
    if k < 0 || k >= names.len() {
        empty_flat()
    } else {
        let head = match lookup_template(ts, names[k], 0) {
            Some(j) => if depth > 0 {
                flatten_tpl(ts, j, (depth - 1) as nat)
            } else {
                empty_flat()
            },
            None => empty_flat(),
        };
        flat_concat(head, flatten_names(ts, names, k + 1, depth))
    }
}

/// The first catalog entry with the given name.
fn lookup_template_exec(tpls: &Vec<Template>, name: &str) -> (r: Option<usize>)
    ensures
        match r {
            Some(j) => j < tpls@.len() && lookup_template(tpl_views(tpls@), name@, 0) == Some(
                j as int,
            ),
            None => lookup_template(tpl_views(tpls@), name@, 0) is None,
        },
{
    let mut k: usize = 0;
    while k < tpls.len()
        invariant
            k <= tpls@.len(),
            lookup_template(tpl_views(tpls@), name@, 0) == lookup_template(
                tpl_views(tpls@),
                name@,
                k as int,
            ),
        decreases tpls@.len() - k,
    {
        if crate::interp::str_eq(tpls[k].name.as_str(), name) {
            return Some(k);
        }
        k = k + 1;
    }
    None
}

/// Appends owned copies of `src`'s expressions to `dst`.
fn append_exprs(dst: &mut Vec<Expression>, src: &Vec<Expression>)
    ensures
        final(dst)@ == old(dst)@ + src@,
{
    let mut k: usize = 0;
    while k < src.len()
        invariant
            k <= src@.len(),
            dst@ == old(dst)@ + src@.subrange(0, k as int),
        decreases src@.len() - k,
    {
        dst.push(src[k].duplicate());
        assert(dst@ =~= old(dst)@ + src@.subrange(0, k + 1 as int));
        k = k + 1;
    }
    assert(old(dst)@ + src@.subrange(0, src@.len() as int) =~= old(dst)@ + src@);
}

/// Appends owned copies of `src`'s multi-expressions to `dst`.
fn append_multis(dst: &mut Vec<MultiExpression>, src: &Vec<MultiExpression>)
    ensures
        mvs(final(dst)@) == mvs(old(dst)@) + mvs(src@),
{
    let mut k: usize = 0;
    while k < src.len()
        invariant
            k <= src@.len(),
            mvs(dst@) == mvs(old(dst)@) + mvs(src@.subrange(0, k as int)),
        decreases src@.len() - k,
    {
        let ghost g = dst@;
        let d = src[k].duplicate();
        assert(d@ == src@[k as int]@);
        dst.push(d);
        assert(dst@ == g.push(d));
        assert(mvs(dst@) =~= mvs(old(dst)@) + mvs(src@.subrange(0, k + 1 as int))) by {
            assert(mvs(g).len() == g.len());
            assert(mvs(old(dst)@).len() == old(dst)@.len());
            assert(mvs(src@.subrange(0, k as int)).len() == k);
            assert(g.len() == old(dst)@.len() + k);
            assert(forall|m: int|
                0 <= m < g.len() ==> #[trigger] mvs(dst@)[m] == mvs(g)[m]);
            assert(mvs(dst@)[g.len() as int] == d@);
            assert(src@.subrange(0, k + 1 as int)[k as int] == src@[k as int]);
            assert(forall|m: int|
                0 <= m < k ==> src@.subrange(0, k + 1 as int)[m] == src@.subrange(0, k as int)[m]);
        }
        k = k + 1;
    }
    assert(mvs(old(dst)@) + mvs(src@.subrange(0, src@.len() as int)) =~= mvs(old(dst)@) + mvs(
        src@,
    ));
}

/// Appends, into the four accumulator lists, owned copies of the flattened
/// contents of each named template, in list order.
fn flatten_names_into(
    tpls: &Vec<Template>,
    names: &Vec<String>,
    depth: usize,
    variables: &mut Vec<Expression>,
    environment: &mut Vec<MultiExpression>,
    commands: &mut Vec<MultiExpression>,
    gitconfig: &mut Vec<Expression>,
)
    ensures
        ({
            let f = flatten_names(tpl_views(tpls@), name_views(names@), 0, depth as nat);
            &&& evs(final(variables)@) == evs(old(variables)@) + f.variables
            &&& mvs(final(environment)@) == mvs(old(environment)@) + f.environment
            &&& mvs(final(commands)@) == mvs(old(commands)@) + f.commands
            &&& evs(final(gitconfig)@) == evs(old(gitconfig)@) + f.gitconfig
        }),
    decreases depth, 0int,
{
    let ghost ts = tpl_views(tpls@);
    let ghost nv = name_views(names@);
    let ghost d = depth as nat;
    let mut k: usize = 0;
    while k < names.len()
        invariant
            k <= names@.len(),
            ts == tpl_views(tpls@),
            nv == name_views(names@),
            d == depth as nat,
            ({
                let f0 = flatten_names(ts, nv, 0, d);
                let fk = flatten_names(ts, nv, k as int, d);
                &&& f0.variables == flatten_names(ts, nv, 0, d).variables
                &&& evs(variables@) + fk.variables == evs(old(variables)@) + f0.variables
                &&& mvs(environment@) + fk.environment == mvs(old(environment)@) + f0.environment
                &&& mvs(commands@) + fk.commands == mvs(old(commands)@) + f0.commands
                &&& evs(gitconfig@) + fk.gitconfig == evs(old(gitconfig)@) + f0.gitconfig
            }),
        decreases names@.len() - k,
    {
        let ghost fk = flatten_names(ts, nv, k as int, d);
        let found = lookup_template_exec(tpls, names[k].as_str());
        match found {
            Some(j) => {
                if depth > 0 {
                    let sub = flatten_tpl_exec(tpls, j, depth - 1);
                    append_exprs(variables, &sub.variables);
                    append_multis(environment, &sub.environment);
                    append_multis(commands, &sub.commands);
                    append_exprs(gitconfig, &sub.gitconfig);
                    proof {
                        let head = flatten_tpl(ts, j as int, (d - 1) as nat);
                        assert(fk == flat_concat(head, flatten_names(ts, nv, k + 1, d)));
                        assert(evs(variables@) + flatten_names(ts, nv, k + 1, d).variables =~= evs(
                            old(variables)@,
                        ) + flatten_names(ts, nv, 0, d).variables);
                        assert(mvs(environment@) + flatten_names(ts, nv, k + 1, d).environment
                            =~= mvs(old(environment)@) + flatten_names(ts, nv, 0, d).environment);
                        assert(mvs(commands@) + flatten_names(ts, nv, k + 1, d).commands =~= mvs(
                            old(commands)@,
                        ) + flatten_names(ts, nv, 0, d).commands);
                        assert(evs(gitconfig@) + flatten_names(ts, nv, k + 1, d).gitconfig =~= evs(
                            old(gitconfig)@,
                        ) + flatten_names(ts, nv, 0, d).gitconfig);
                    }
                } else {
                    proof {
                        assert(fk == flat_concat(empty_flat(), flatten_names(ts, nv, k + 1, d)));
                        assert(fk.variables =~= flatten_names(ts, nv, k + 1, d).variables);
                        assert(fk.environment =~= flatten_names(ts, nv, k + 1, d).environment);
                        assert(fk.commands =~= flatten_names(ts, nv, k + 1, d).commands);
                        assert(fk.gitconfig =~= flatten_names(ts, nv, k + 1, d).gitconfig);
                    }
                }
            },
            None => {
                proof {
                    assert(fk == flat_concat(empty_flat(), flatten_names(ts, nv, k + 1, d)));
                    assert(fk.variables =~= flatten_names(ts, nv, k + 1, d).variables);
                    assert(fk.environment =~= flatten_names(ts, nv, k + 1, d).environment);
                    assert(fk.commands =~= flatten_names(ts, nv, k + 1, d).commands);
                    assert(fk.gitconfig =~= flatten_names(ts, nv, k + 1, d).gitconfig);
                }
            },
        }
        k = k + 1;
    }
    proof {
        assert(flatten_names(ts, nv, names@.len() as int, d) == empty_flat());
        assert(evs(variables@) + empty_flat().variables =~= evs(variables@));
        assert(mvs(environment@) + empty_flat().environment =~= mvs(environment@));
        assert(mvs(commands@) + empty_flat().commands =~= mvs(commands@));
        assert(evs(gitconfig@) + empty_flat().gitconfig =~= evs(gitconfig@));
    }
}

/// Flattens the catalog entry at `index` under the given recursion budget.
fn flatten_tpl_exec(tpls: &Vec<Template>, index: usize, depth: usize) -> (r: Template)
    requires
        index < tpls@.len(),
    ensures
        ({
            let f = flatten_tpl(tpl_views(tpls@), index as int, depth as nat);
            &&& r.name@ == tpls@[index as int].name@
            &&& r.extend@.len() == 0
            &&& evs(r.variables@) == f.variables
            &&& mvs(r.environment@) == f.environment
            &&& mvs(r.commands@) == f.commands
            &&& evs(r.gitconfig@) == f.gitconfig
        }),
    decreases depth, 1int,
{
    let t = &tpls[index];
    let mut variables: Vec<Expression> = Vec::new();
    let mut environment: Vec<MultiExpression> = Vec::new();
    let mut commands: Vec<MultiExpression> = Vec::new();
    let mut gitconfig: Vec<Expression> = Vec::new();
    append_exprs(&mut variables, &t.variables);
    append_multis(&mut environment, &t.environment);
    append_multis(&mut commands, &t.commands);
    append_exprs(&mut gitconfig, &t.gitconfig);
    flatten_names_into(
        tpls,
        &t.extend,
        depth,
        &mut variables,
        &mut environment,
        &mut commands,
        &mut gitconfig,
    );
    proof {
        let f = flatten_tpl(tpl_views(tpls@), index as int, depth as nat);
        let own = own_flat(tpl_views(tpls@)[index as int]);
        assert(evs(variables@) =~= f.variables);
        assert(mvs(environment@) =~= f.environment);
        assert(mvs(commands@) =~= f.commands);
        assert(evs(gitconfig@) =~= f.gitconfig);
    }
    Template {
        name: t.name.clone(),
        extend: Vec::new(),
        variables,
        environment,
        commands,
        gitconfig,
    }
}

/// Flattens the named catalog entry into independently owned lists: its
/// own declarations first, then everything inherited through `extend` in
/// listed order, duplicates kept. The recursion budget is the catalog's
/// size: ample for any acyclic inheritance graph, while cyclic `extend`
/// chains are cut off.
pub fn flatten_template(catalog: &Vec<Template>, index: usize) -> (r: Template)
    requires
        index < catalog@.len(),
    ensures
        ({
            let f = flatten_tpl(tpl_views(catalog@), index as int, catalog@.len() as nat);
            &&& r.name@ == catalog@[index as int].name@
            &&& r.extend@.len() == 0
            &&& evs(r.variables@) == f.variables
            &&& mvs(r.environment@) == f.environment
            &&& mvs(r.commands@) == f.commands
            &&& evs(r.gitconfig@) == f.gitconfig
        }),
{
    let depth = catalog.len();
    flatten_tpl_exec(catalog, index, depth)
}

/// The flattened template-sourced contents a tree draws from its template
/// list, each template flattened under the catalog-size budget.
pub open spec fn tree_templates_flat(tree: Tree, catalog: Seq<Template>) -> FlatView {
    flatten_names(
        tpl_views(catalog),
        name_views(tree.templates@),
        0,
        catalog.len() as nat,
    )
}

/// Stamps a tree: returns a tree whose four composable fields merge the
/// template-sourced entries with the tree's own inline declarations, every
/// entry an independently owned copy. One documented rule per field:
/// variables and commands put the tree's own declarations first;
/// environment and git configuration put template-sourced entries first.
pub fn compose_tree(tree: &Tree, catalog: &Vec<Template>) -> (r: Tree)
    ensures
        r.name@ == tree.name@,
        r.path == tree.path,
        r.url == tree.url,
        r.remotes@ == tree.remotes@,
        name_views(r.templates@) == name_views(tree.templates@),
        r.is_bare == tree.is_bare,
        r.is_worktree == tree.is_worktree,
        r.worktree == tree.worktree,
        r.branch == tree.branch,
        ({
            let f = tree_templates_flat(*tree, catalog@);
            &&& evs(r.variables@) == evs(tree.variables@) + f.variables
            &&& mvs(r.environment@) == f.environment + mvs(tree.environment@)
            &&& mvs(r.commands@) == mvs(tree.commands@) + f.commands
            &&& evs(r.gitconfig@) == f.gitconfig + evs(tree.gitconfig@)
        }),
{
    let depth = catalog.len();
    let mut tpl_variables: Vec<Expression> = Vec::new();
    let mut tpl_environment: Vec<MultiExpression> = Vec::new();
    let mut tpl_commands: Vec<MultiExpression> = Vec::new();
    let mut tpl_gitconfig: Vec<Expression> = Vec::new();
    flatten_names_into(
        catalog,
        &tree.templates,
        depth,
        &mut tpl_variables,
        &mut tpl_environment,
        &mut tpl_commands,
        &mut tpl_gitconfig,
    );
    // Variables: the tree's own declarations first.
    let mut variables: Vec<Expression> = Vec::new();
    append_exprs(&mut variables, &tree.variables);
    append_exprs(&mut variables, &tpl_variables);
    // Environment: template-sourced entries first.
    let mut environment: Vec<MultiExpression> = Vec::new();
    append_multis(&mut environment, &tpl_environment);
    append_multis(&mut environment, &tree.environment);
    // Commands: the tree's own declarations first.
    let mut commands: Vec<MultiExpression> = Vec::new();
    append_multis(&mut commands, &tree.commands);
    append_multis(&mut commands, &tpl_commands);
    // Git configuration: template-sourced entries first.
    let mut gitconfig: Vec<Expression> = Vec::new();
    append_exprs(&mut gitconfig, &tpl_gitconfig);
    append_exprs(&mut gitconfig, &tree.gitconfig);
    // The tree's template list, copied.
    let mut templates: Vec<String> = Vec::new();
    let mut k: usize = 0;
    while k < tree.templates.len()
        invariant
            k <= tree.templates@.len(),
            name_views(templates@) == name_views(tree.templates@.subrange(0, k as int)),
        decreases tree.templates@.len() - k,
    {
        let ghost g = templates@;
        templates.push(tree.templates[k].clone());
        assert(name_views(templates@) =~= name_views(tree.templates@.subrange(0, k + 1 as int)))
            by {
            assert(name_views(g).len() == g.len());
            assert(name_views(tree.templates@.subrange(0, k as int)).len() == k);
            assert(forall|m: int|
                0 <= m < g.len() ==> #[trigger] name_views(templates@)[m] == name_views(g)[m]);
            assert(name_views(templates@)[k as int] == tree.templates@[k as int]@);
            assert(tree.templates@.subrange(0, k + 1 as int)[k as int] == tree.templates@[k as int]);
            assert(forall|m: int|
                0 <= m < k ==> tree.templates@.subrange(0, k + 1 as int)[m] == tree.templates@.subrange(
                    0,
                    k as int,
                )[m]);
        }
        k = k + 1;
    }
    assert(name_views(tree.templates@.subrange(0, tree.templates@.len() as int)) =~= name_views(
        tree.templates@,
    ));
    // Remotes, copied.
    let mut remotes: Vec<Expression> = Vec::new();
    append_exprs(&mut remotes, &tree.remotes);
    assert(Seq::<Expression>::empty() + tree.remotes@ =~= tree.remotes@);
    proof {
        let f = tree_templates_flat(*tree, catalog@);
        assert(evs(variables@) =~= evs(tree.variables@) + f.variables);
        assert(mvs(environment@) =~= f.environment + mvs(tree.environment@));
        assert(mvs(commands@) =~= mvs(tree.commands@) + f.commands);
        assert(evs(gitconfig@) =~= f.gitconfig + evs(tree.gitconfig@));
    }
    Tree {
        name: tree.name.clone(),
        path: tree.path.duplicate(),
        url: tree.url.duplicate(),
        remotes,
        templates,
        variables,
        environment,
        commands,
        gitconfig,
        is_bare: tree.is_bare,
        is_worktree: tree.is_worktree,
        worktree: tree.worktree.duplicate(),
        branch: tree.branch.duplicate(),
    }
}

/// Law: template flattening is additive and order-preserving. For a
/// template that extends exactly two templates and declares `k` own
/// entries of a field, the flattened field has `k` plus the lengths of the
/// two parents' flattenings — nothing deduplicated — and its first `k`
/// entries are the template's own declarations in declared order.
pub proof fn lemma_flatten_count(ts: Seq<TemplateView>, i: int, depth: nat, j1: int, j2: int)
    requires
        0 <= i < ts.len(),
        depth > 0,
        ts[i].extend.len() == 2,
        lookup_template(ts, ts[i].extend[0], 0) == Some(j1),
        lookup_template(ts, ts[i].extend[1], 0) == Some(j2),
    ensures
        ({
            let f = flatten_tpl(ts, i, depth);
            let f1 = flatten_tpl(ts, j1, (depth - 1) as nat);
            let f2 = flatten_tpl(ts, j2, (depth - 1) as nat);
            &&& f.variables.len() == ts[i].variables.len() + f1.variables.len()
                + f2.variables.len()
            &&& f.environment.len() == ts[i].environment.len() + f1.environment.len()
                + f2.environment.len()
            &&& f.commands.len() == ts[i].commands.len() + f1.commands.len() + f2.commands.len()
            &&& f.gitconfig.len() == ts[i].gitconfig.len() + f1.gitconfig.len()
                + f2.gitconfig.len()
            &&& f.variables.subrange(0, ts[i].variables.len() as int) == ts[i].variables
            &&& f.variables == ts[i].variables + f1.variables + f2.variables
        }),
{
    let names = ts[i].extend;
    assert(flatten_names(ts, names, 2, depth) == empty_flat());
    let f1 = flatten_tpl(ts, j1, (depth - 1) as nat);
    let f2 = flatten_tpl(ts, j2, (depth - 1) as nat);
    assert(flatten_names(ts, names, 1, depth) == flat_concat(
        f2,
        flatten_names(ts, names, 2, depth),
    ));
    assert(flatten_names(ts, names, 0, depth) == flat_concat(
        f1,
        flatten_names(ts, names, 1, depth),
    ));
    let f = flatten_tpl(ts, i, depth);
    assert(f.variables =~= ts[i].variables + f1.variables + f2.variables);
    assert(f.variables.subrange(0, ts[i].variables.len() as int) =~= ts[i].variables);
    assert(f.environment =~= ts[i].environment + f1.environment + f2.environment);
    assert(f.commands =~= ts[i].commands + f1.commands + f2.commands);
    assert(f.gitconfig =~= ts[i].gitconfig + f1.gitconfig + f2.gitconfig);
}

} // verus!
