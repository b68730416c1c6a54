//! The data model: expressions, multi-expressions, templates, trees,
//! groups, gardens, the owning configuration, and the index triples and
//! parsed queries that the query resolver produces and consumes.
//!
//! Entities refer to each other by name, or by stable positional indices
//! into the owning [`Configuration`], never by direct reference.

use vstd::prelude::*;

verus! {

/// A stable position into `Configuration::trees`.
pub type TreeIndex = usize;

/// A stable position into `Configuration::gardens`.
pub type GardenIndex = usize;

/// A stable position into `Configuration::groups`.
pub type GroupIndex = usize;

/// A single named string expression: a raw source form that may embed
/// `${name}` references, and a resolved form memoized on first demand.
pub struct Expression {
    /// The name under which other expressions may reference this one.
    pub name: String,
    /// The raw source text, immutable after creation.
    pub expr: String,
    /// The memoized resolved text; absent until first demand.
    pub resolved: Option<String>,
}

/// The mathematical shape of an [`Expression`].
pub struct ExprView {
    pub name: Seq<char>,
    pub expr: Seq<char>,
    pub resolved: Option<Seq<char>>,
}

/// The view of a memoized field: the resolved text, if present.
pub open spec fn resolved_view(r: Option<String>) -> Option<Seq<char>> {
    match r {
        Some(s) => Some(s@),
        None => None,
    }
}

impl View for Expression {
    type V = ExprView;

    open spec fn view(&self) -> ExprView {
        ExprView { name: self.name@, expr: self.expr@, resolved: resolved_view(self.resolved) }
    }
}

impl Expression {
    /// A fresh expression: the raw text is stored unchanged and the
    /// resolved form is absent until the first demand.
    pub fn new(name: String, expr: String) -> (e: Expression)
        ensures
            e@.name == name@,
            e@.expr == expr@,
            e@.resolved is None,
    {
        Expression { name, expr, resolved: None }
    }

    /// An owned copy; the memoized state travels with it.
    pub fn duplicate(&self) -> (e: Expression)
        ensures
            e == *self,
    {
        Expression {
            name: self.name.clone(),
            expr: self.expr.clone(),
            resolved: match &self.resolved {
                Some(s) => Some(s.clone()),
                None => None,
            },
        }
    }
}

/// An ordered, named list of expressions, used for commands with several
/// lines and for environment variables with several path segments. A
/// trailing sigil on the name (`=` or `+`) is stored as part of the name
/// and never interpreted here.
pub struct MultiExpression {
    pub name: String,
    pub values: Vec<Expression>,
}

/// The mathematical shape of a [`MultiExpression`].
pub struct MultiView {
    pub name: Seq<char>,
    pub values: Seq<ExprView>,
}

impl View for MultiExpression {
    type V = MultiView;

    open spec fn view(&self) -> MultiView {
        MultiView { name: self.name@, values: self.values@.map_values(|e: Expression| e@) }
    }
}

impl MultiExpression {
    pub fn new(name: String, values: Vec<Expression>) -> (m: MultiExpression)
        ensures
            m@.name == name@,
            m@.values == values@.map_values(|e: Expression| e@),
    {
        MultiExpression { name, values }
    }

    /// An owned copy whose expressions are independently owned.
    pub fn duplicate(&self) -> (m: MultiExpression)
        ensures
            m.name == self.name,
            m.values@ == self.values@,
    {
        let mut values: Vec<Expression> = Vec::new();
        let mut i: usize = 0;
        while i < self.values.len()
            invariant
                i <= self.values@.len(),
                values@ == self.values@.subrange(0, i as int),
            decreases self.values@.len() - i,
        {
            values.push(self.values[i].duplicate());
            assert(values@ =~= self.values@.subrange(0, i + 1 as int));
            i = i + 1;
        }
        assert(values@ =~= self.values@);
        MultiExpression { name: self.name.clone(), values }
    }
}

/// A reusable, inheritable bundle of variables, environment entries,
/// commands and git configuration, composed into trees and other
/// templates. `extend` lists the templates inherited from, in order;
/// diamond inheritance is permitted and never deduplicated.
pub struct Template {
    pub name: String,
    pub extend: Vec<String>,
    pub variables: Vec<Expression>,
    pub environment: Vec<MultiExpression>,
    pub commands: Vec<MultiExpression>,
    pub gitconfig: Vec<Expression>,
}

/// The mathematical shape of a [`Template`].
pub struct TemplateView {
    pub name: Seq<char>,
    pub extend: Seq<Seq<char>>,
    pub variables: Seq<ExprView>,
    pub environment: Seq<MultiView>,
    pub commands: Seq<MultiView>,
    pub gitconfig: Seq<ExprView>,
}

impl View for Template {
    type V = TemplateView;

    open spec fn view(&self) -> TemplateView {
        TemplateView {
            name: self.name@,
            extend: self.extend@.map_values(|s: String| s@),
            variables: self.variables@.map_values(|e: Expression| e@),
            environment: self.environment@.map_values(|m: MultiExpression| m@),
            commands: self.commands@.map_values(|m: MultiExpression| m@),
            gitconfig: self.gitconfig@.map_values(|e: Expression| e@),
        }
    }
}

impl Template {
    pub fn new(name: String) -> (t: Template)
        ensures
            t@.name == name@,
            t@.extend.len() == 0,
            t@.variables.len() == 0,
            t@.environment.len() == 0,
            t@.commands.len() == 0,
            t@.gitconfig.len() == 0,
    {
        Template {
            name,
            extend: Vec::new(),
            variables: Vec::new(),
            environment: Vec::new(),
            commands: Vec::new(),
            gitconfig: Vec::new(),
        }
    }
}

/// A single managed repository checkout.
pub struct Tree {
    pub name: String,
    /// The checkout location; defaults to the tree's name when the
    /// document omits it (a defaulting rule the loader applies).
    pub path: Expression,
    pub url: Expression,
    /// One expression per remote; the expression's name is the remote's.
    pub remotes: Vec<Expression>,
    pub templates: Vec<String>,
    pub variables: Vec<Expression>,
    pub environment: Vec<MultiExpression>,
    pub commands: Vec<MultiExpression>,
    pub gitconfig: Vec<Expression>,
    pub is_bare: bool,
    pub is_worktree: bool,
    /// The parent tree's name; meaningful only when `is_worktree` holds.
    pub worktree: Expression,
    pub branch: Expression,
}

impl Tree {
    /// A fresh tree whose path defaults to its name.
    pub fn new(name: String) -> (t: Tree)
        ensures
            t.name@ == name@,
            t.path@.expr == name@,
            t.path@.resolved is None,
            t.templates@.len() == 0,
            t.variables@.len() == 0,
            t.environment@.len() == 0,
            t.commands@.len() == 0,
            t.gitconfig@.len() == 0,
            t.remotes@.len() == 0,
            !t.is_bare,
            !t.is_worktree,
    {
        let path_text = name.clone();
        Tree {
            name,
            path: Expression::new(String::from_str("path"), path_text),
            url: Expression::new(String::from_str("url"), String::new()),
            remotes: Vec::new(),
            templates: Vec::new(),
            variables: Vec::new(),
            environment: Vec::new(),
            commands: Vec::new(),
            gitconfig: Vec::new(),
            is_bare: false,
            is_worktree: false,
            worktree: Expression::new(String::from_str("worktree"), String::new()),
            branch: Expression::new(String::from_str("branch"), String::new()),
        }
    }
}

/// A named, ordered collection of tree-name glob patterns.
pub struct Group {
    pub name: String,
    pub index: GroupIndex,
    pub members: Vec<String>,
}

/// A named collection binding groups and trees to garden-scoped
/// variables, environment and commands.
pub struct Garden {
    pub name: String,
    pub index: GardenIndex,
    /// Group-name glob patterns.
    pub groups: Vec<String>,
    /// Tree-name glob patterns.
    pub trees: Vec<String>,
    pub variables: Vec<Expression>,
    pub environment: Vec<MultiExpression>,
    pub commands: Vec<MultiExpression>,
    pub gitconfig: Vec<Expression>,
}

impl Garden {
    pub fn new(name: String) -> (g: Garden)
        ensures
            g.name@ == name@,
            g.index == 0usize,
            g.groups@.len() == 0,
            g.trees@.len() == 0,
    {
        Garden {
            name,
            index: 0,
            groups: Vec::new(),
            trees: Vec::new(),
            variables: Vec::new(),
            environment: Vec::new(),
            commands: Vec::new(),
            gitconfig: Vec::new(),
        }
    }
}

/// The fully composed, index-addressed set of trees, groups, gardens and
/// templates, plus global declarations and scalar settings. Frozen after
/// composition; expression memoization is the only state that changes
/// afterwards.
pub struct Configuration {
    pub trees: Vec<Tree>,
    pub groups: Vec<Group>,
    pub gardens: Vec<Garden>,
    pub templates: Vec<Template>,
    pub variables: Vec<Expression>,
    pub environment: Vec<MultiExpression>,
    pub commands: Vec<MultiExpression>,
    pub gitconfig: Vec<Expression>,
    pub root_path: String,
    pub shell: String,
    pub environment_variables: bool,
    pub verbose: bool,
}

impl Configuration {
    /// An empty configuration with the default scalar settings.
    pub fn new() -> (c: Configuration)
        ensures
            c.trees@.len() == 0,
            c.groups@.len() == 0,
            c.gardens@.len() == 0,
            c.templates@.len() == 0,
            c.shell@ == "zsh"@,
            c.environment_variables,
            !c.verbose,
    {
        Configuration {
            trees: Vec::new(),
            groups: Vec::new(),
            gardens: Vec::new(),
            templates: Vec::new(),
            variables: Vec::new(),
            environment: Vec::new(),
            commands: Vec::new(),
            gitconfig: Vec::new(),
            root_path: String::new(),
            shell: String::from_str("zsh"),
            environment_variables: true,
            verbose: false,
        }
    }

    /// Appends a tree; its index is its position.
    pub fn add_tree(&mut self, tree: Tree)
        ensures
            final(self).trees@ == old(self).trees@.push(tree),
            final(self).groups@ == old(self).groups@,
            final(self).gardens@ == old(self).gardens@,
            final(self).templates@ == old(self).templates@,
    {
        self.trees.push(tree);
    }

    /// Appends a group, stamping its stable index.
    pub fn add_group(&mut self, name: String, members: Vec<String>)
        ensures
            final(self).groups@.len() == old(self).groups@.len() + 1,
            final(self).groups@.last().name@ == name@,
            final(self).groups@.last().index == old(self).groups@.len(),
            final(self).groups@.last().members@ == members@,
            final(self).groups@.subrange(0, old(self).groups@.len() as int) == old(self).groups@,
            final(self).trees@ == old(self).trees@,
            final(self).gardens@ == old(self).gardens@,
            final(self).templates@ == old(self).templates@,
    {
        let index = self.groups.len();
        self.groups.push(Group { name, index, members });
        assert(self.groups@.subrange(0, old(self).groups@.len() as int) =~= old(self).groups@);
    }

    /// Appends a garden, stamping its stable index.
    pub fn add_garden(&mut self, garden: Garden)
        ensures
            final(self).gardens@.len() == old(self).gardens@.len() + 1,
            final(self).gardens@.last().name@ == garden.name@,
            final(self).gardens@.last().index == old(self).gardens@.len(),
            final(self).gardens@.last().groups@ == garden.groups@,
            final(self).gardens@.last().trees@ == garden.trees@,
            final(self).gardens@.subrange(0, old(self).gardens@.len() as int) == old(
                self,
            ).gardens@,
            final(self).trees@ == old(self).trees@,
            final(self).groups@ == old(self).groups@,
            final(self).templates@ == old(self).templates@,
    {
        let index = self.gardens.len();
        let stamped = Garden {
            name: garden.name,
            index,
            groups: garden.groups,
            trees: garden.trees,
            variables: garden.variables,
            environment: garden.environment,
            commands: garden.commands,
            gitconfig: garden.gitconfig,
        };
        self.gardens.push(stamped);
        assert(self.gardens@.subrange(0, old(self).gardens@.len() as int) =~= old(self).gardens@);
    }

    /// Appends a template.
    pub fn add_template(&mut self, template: Template)
        ensures
            final(self).templates@ == old(self).templates@.push(template),
            final(self).trees@ == old(self).trees@,
            final(self).groups@ == old(self).groups@,
            final(self).gardens@ == old(self).gardens@,
    {
        self.templates.push(template);
    }
}

/// A resolved reference naming one tree evaluated within an optional
/// garden or group scope, by stable positional indices only.
#[derive(Clone, Copy, PartialEq, Eq, Debug)]
pub struct TreeContext {
    pub tree: TreeIndex,
    pub garden: Option<GardenIndex>,
    pub group: Option<GroupIndex>,
}

/// The parsed form of a user query string. A recognized sigil prefix
/// (`:` gardens, `%` groups, `@` trees) narrows resolution to exactly one
/// entity kind; without one, every kind is in scope and the query is a
/// default query, eligible for the fallback to filesystem paths.
pub struct TreeQuery {
    /// The raw query string, unchanged.
    pub query: String,
    /// The glob pattern: the raw string with any sigil removed.
    pub pattern: String,
    pub include_gardens: bool,
    pub include_groups: bool,
    pub include_trees: bool,
    pub is_default: bool,
}

/// The parsed shape of a query string.
pub struct QueryView {
    pub pattern: Seq<char>,
    pub include_gardens: bool,
    pub include_groups: bool,
    pub include_trees: bool,
    pub is_default: bool,
}

/// What a query string designates: which entity kinds are in scope and
/// which glob pattern they are matched against.
pub open spec fn parse_query(q: Seq<char>) -> QueryView {
    if q.len() > 0 && q[0] == ':' {
        QueryView {
            pattern: q.skip(1),
            include_gardens: true,
            include_groups: false,
            include_trees: false,
            is_default: false,
        }
    } else if q.len() > 0 && q[0] == '%' {
        QueryView {
            pattern: q.skip(1),
            include_gardens: false,
            include_groups: true,
            include_trees: false,
            is_default: false,
        }
    } else if q.len() > 0 && q[0] == '@' {
        QueryView {
            pattern: q.skip(1),
            include_gardens: false,
            include_groups: false,
            include_trees: true,
            is_default: false,
        }
    } else {
        QueryView {
            pattern: q,
            include_gardens: true,
            include_groups: true,
            include_trees: true,
            is_default: true,
        }
    }
}

impl TreeQuery {
    /// Parses a raw query string into its pattern and scope flags.
    pub fn new(query: &str) -> (q: TreeQuery)
        ensures
            q.query@ == query@,
            parse_query(query@) == (QueryView {
                pattern: q.pattern@,
                include_gardens: q.include_gardens,
                include_groups: q.include_groups,
                include_trees: q.include_trees,
                is_default: q.is_default,
            }),
    {
        let n = query.unicode_len();
        let raw = String::from_str(query);
        if n > 0 {
            let c = query.get_char(0);
            if c == ':' || c == '%' || c == '@' {
                let pattern = String::from_str(query.substring_char(1, n));
                assert(pattern@ =~= query@.skip(1));
                return TreeQuery {
                    query: raw,
                    pattern,
                    include_gardens: c == ':',
                    include_groups: c == '%',
                    include_trees: c == '@',
                    is_default: false,
                };
            }
        }
        TreeQuery {
            query: raw,
            pattern: String::from_str(query),
            include_gardens: true,
            include_groups: true,
            include_trees: true,
            is_default: true,
        }
    }
}

} // verus!
