//! The query resolver: turns a user-supplied pattern into the ordered set
//! of tree references it designates, with strict precedence — gardens
//! outrank groups, groups outrank trees, and a default query that matched
//! nothing by name falls back to comparing canonicalized filesystem paths.
//!
//! Glob matching is the `glob` crate's; what a pattern compiles to and
//! matches is named by the uninterpreted functions [`glob_ok`] and
//! [`glob_match`]. Path canonicalization depends on the state of the disk,
//! so every resolver is split: a thin public function gathers the
//! canonical forms the resolution may consult into a [`PathLookup`], and a
//! verified `_with_lookup` function computes the result exactly as the
//! models here state, for whatever canonical forms were gathered.

use crate::interp::str_eq;
use crate::model::Configuration;
use crate::model::Garden;
use crate::model::GardenIndex;
use crate::model::Group;
use crate::model::GroupIndex;
use crate::model::Tree;
use crate::model::TreeContext;
use crate::model::TreeQuery;
use crate::model::parse_query;
use crate::model::resolved_view;
use vstd::prelude::*;

verus! {

/// Whether the `glob` crate accepts `pattern` as a valid pattern.
pub uninterp spec fn glob_ok(pattern: Seq<char>) -> bool;

/// Whether the `glob` crate's matcher accepts `name` under `pattern`.
pub uninterp spec fn glob_match(pattern: Seq<char>, name: Seq<char>) -> bool;

/// Whether `s` holds a glob metacharacter.
pub open spec fn has_glob_meta(s: Seq<char>) -> bool {
    exists|i: int| 0 <= i < s.len() && (s[i] == '*' || s[i] == '?' || s[i] == '[')
}

/// Relies on glob::Pattern::new and glob::Pattern::matches: whether a
/// pattern compiles, and whether it matches a name, are functions of the
/// two strings alone. A pattern without the metacharacters `*`, `?` and
/// `[` always compiles — every character becomes a literal token — and,
/// matched case-sensitively on a Unix target, where the matcher compares
/// literal characters by equality, it matches exactly the name equal to
/// it.
#[verifier::external_body]
fn glob_matches(pattern: &str, name: &str) -> (r: Option<bool>)
    ensures
        r is Some <==> glob_ok(pattern@),
        r matches Some(m) ==> m == glob_match(pattern@, name@),
        !has_glob_meta(pattern@) ==> r == Some(pattern@ == name@),
{
    match glob::Pattern::new(pattern) {
        Ok(p) => Some(p.matches(name)),
        Err(_) => None,
    }
}

/// Relies on std::path::Path::canonicalize: the canonical absolute form
/// of a path that exists on the filesystem, or nothing. The result
/// depends on the state of the disk, so nothing more is stated of it.
#[verifier::external_body]
fn canonicalize_path(s: &str) -> (r: Option<String>) {
    std::path::Path::new(s).canonicalize().ok().and_then(|p| p.to_str().map(|q| q.to_string()))
}

/// Whether `pattern` is a valid glob pattern.
fn glob_valid(pattern: &str) -> (r: bool)
    ensures
        r == glob_ok(pattern@),
{
    match glob_matches(pattern, "") {
        Some(_) => true,
        None => false,
    }
}

/// Whether the valid pattern matches `name`.
fn match_name(pattern: &str, name: &str) -> (r: bool)
    requires
        glob_ok(pattern@),
    ensures
        r == glob_match(pattern@, name@),
{
    match glob_matches(pattern, name) {
        Some(m) => m,
        None => {
            proof {
                assert(false);
            }
            false
        },
    }
}

/// One remembered canonicalization: a path string and what the filesystem
/// said its canonical form is, if anything.
pub struct PathEntry {
    pub key: String,
    pub canon: Option<String>,
}

/// A table of remembered canonicalizations, consulted first key to last,
/// the first occurrence of a key winning.
pub struct PathLookup {
    pub entries: Vec<PathEntry>,
}

/// The table's entries from `i` on, as a map; an earlier entry overrides
/// a later one with the same key.
pub open spec fn lookup_map_at(entries: Seq<PathEntry>, i: int) -> Map<Seq<char>, Option<Seq<char>>>
    decreases entries.len() - i,
{
    if i < 0 || i >= entries.len() {
        Map::empty()
    } else {
        lookup_map_at(entries, i + 1).insert(entries[i].key@, resolved_view(entries[i].canon))
    }
}

/// The table as a map from path strings to canonical forms.
pub open spec fn path_map(pl: PathLookup) -> Map<Seq<char>, Option<Seq<char>>> {
    lookup_map_at(pl.entries@, 0)
}

/// The canonical form the table gives `s`: a path never gathered reads as
/// one the filesystem could not canonicalize.
pub open spec fn canon_of(cm: Map<Seq<char>, Option<Seq<char>>>, s: Seq<char>) -> Option<
    Seq<char>,
> {
    if cm.contains_key(s) {
        cm[s]
    } else {
        None
    }
}

impl PathLookup {
    /// An empty table.
    pub fn new() -> (pl: PathLookup)
        ensures
            pl.entries@.len() == 0,
    {
        PathLookup { entries: Vec::new() }
    }

    /// Remembers the canonical form of `key`, asking the filesystem only
    /// for keys not yet present.
    pub fn add(&mut self, key: &str) {
        let present = match self.get(key) {
            Some(_) => true,
            None => false,
        };
        // A key that canonicalized to nothing reads the same as an absent
        // key, so re-asking for it is harmless.
        if !present {
            let canon = canonicalize_path(key);
            self.entries.push(PathEntry { key: String::from_str(key), canon });
        }
    }

    /// The canonical form the table gives `key`.
    pub fn get(&self, key: &str) -> (r: Option<String>)
        ensures
            resolved_view(r) == canon_of(path_map(*self), key@),
    {
        let mut i: usize = 0;
        while i < self.entries.len()
            invariant
                i <= self.entries@.len(),
                canon_of(lookup_map_at(self.entries@, 0), key@) == canon_of(
                    lookup_map_at(self.entries@, i as int),
                    key@,
                ),
            decreases self.entries@.len() - i,
        {
            if str_eq(self.entries[i].key.as_str(), key) {
                let r = match &self.entries[i].canon {
                    Some(c) => Some(c.clone()),
                    None => None,
                };
                return r;
            }
            i = i + 1;
        }
        None
    }
}

/// The tree context for position `t`, under the given scopes.
pub open spec fn ctx_of(t: int, g: Option<GardenIndex>, gr: Option<GroupIndex>) -> TreeContext {
    TreeContext { tree: t as usize, garden: g, group: gr }
}

/// A tree's resolved path text, if its path expression was resolved.
pub open spec fn tree_path_text(t: Tree) -> Option<Seq<char>> {
    resolved_view(t.path.resolved)
}

/// The contexts of the trees from position `i` on whose names match the
/// pattern, tagged with the given scopes, in tree order.
pub open spec fn trees_matching(
    cfg: Configuration,
    pat: Seq<char>,
    gi: Option<GardenIndex>,
    gri: Option<GroupIndex>,
    i: int,
) -> Seq<TreeContext>
    decreases cfg.trees@.len() - i,
{
    if i < 0 || i >= cfg.trees@.len() {
        Seq::empty()
    } else {
        let rest = trees_matching(cfg, pat, gi, gri, i + 1);
        if glob_match(pat, cfg.trees@[i].name@) {
            seq![ctx_of(i, gi, gri)] + rest
        } else {
            rest
        }
    }
}

/// The canonical form of the tree at `i`'s resolved path, under `cm`.
pub open spec fn tree_canon(cfg: Configuration, cm: Map<Seq<char>, Option<Seq<char>>>, i: int) -> Option<
    Seq<char>,
> {
    match tree_path_text(cfg.trees@[i]) {
        None => None,
        Some(p) => canon_of(cm, p),
    }
}

/// The first tree from position `i` on whose canonical path is `c`, with
/// no garden or group scope.
pub open spec fn path_match_from(
    cfg: Configuration,
    cm: Map<Seq<char>, Option<Seq<char>>>,
    c: Seq<char>,
    i: int,
) -> Option<TreeContext>
    decreases cfg.trees@.len() - i,
{
    if i < 0 || i >= cfg.trees@.len() {
        None
    } else if tree_canon(cfg, cm, i) == Some(c) {
        Some(ctx_of(i, None, None))
    } else {
        path_match_from(cfg, cm, c, i + 1)
    }
}

/// The tree whose canonical path equals the canonical form of `s`, if
/// both canonicalize and a tree matches.
pub open spec fn tree_from_path_model(
    cfg: Configuration,
    cm: Map<Seq<char>, Option<Seq<char>>>,
    s: Seq<char>,
) -> Option<TreeContext> {
    match canon_of(cm, s) {
        None => None,
        Some(c) => path_match_from(cfg, cm, c, 0),
    }
}

/// What a tree pattern designates: nothing for an invalid pattern, the
/// name matches when there are any, and otherwise the pattern read as a
/// filesystem path.
pub open spec fn trees_from_pattern_model(
    cfg: Configuration,
    cm: Map<Seq<char>, Option<Seq<char>>>,
    pat: Seq<char>,
    gi: Option<GardenIndex>,
    gri: Option<GroupIndex>,
) -> Seq<TreeContext> {
    if !glob_ok(pat) {
        Seq::empty()
    } else {
        let m = trees_matching(cfg, pat, gi, gri, 0);
        if m.len() > 0 {
            m
        } else {
            match tree_from_path_model(cfg, cm, pat) {
                Some(c) => seq![c],
                None => Seq::empty(),
            }
        }
    }
}

/// The expansions of a group's member patterns from position `k` on,
/// each tagged with the group's stored index and the given garden scope.
pub open spec fn group_members_model(
    cfg: Configuration,
    cm: Map<Seq<char>, Option<Seq<char>>>,
    gi: Option<GardenIndex>,
    group: Group,
    k: int,
) -> Seq<TreeContext>
    decreases group.members@.len() - k,
{
    if k < 0 || k >= group.members@.len() {
        Seq::empty()
    } else {
        trees_from_pattern_model(cfg, cm, group.members@[k]@, gi, Some(group.index))
            + group_members_model(cfg, cm, gi, group, k + 1)
    }
}

/// What a group designates under an optional garden scope.
pub open spec fn trees_from_group_model(
    cfg: Configuration,
    cm: Map<Seq<char>, Option<Seq<char>>>,
    gi: Option<GardenIndex>,
    group: Group,
) -> Seq<TreeContext> {
    group_members_model(cfg, cm, gi, group, 0)
}

/// The expansions of every configured group from position `g` on whose
/// name matches the pattern, in group order.
pub open spec fn groups_scan_model(
    cfg: Configuration,
    cm: Map<Seq<char>, Option<Seq<char>>>,
    gi: Option<GardenIndex>,
    pat: Seq<char>,
    g: int,
) -> Seq<TreeContext>
    decreases cfg.groups@.len() - g,
{
    if g < 0 || g >= cfg.groups@.len() {
        Seq::empty()
    } else {
        let head = if glob_match(pat, cfg.groups@[g].name@) {
            trees_from_group_model(cfg, cm, gi, cfg.groups@[g])
        } else {
            Seq::empty()
        };
        head + groups_scan_model(cfg, cm, gi, pat, g + 1)
    }
}

/// The trees a garden draws through its group patterns from position `k`
/// on; an invalid pattern is skipped.
pub open spec fn garden_groups_model(
    cfg: Configuration,
    cm: Map<Seq<char>, Option<Seq<char>>>,
    garden: Garden,
    k: int,
) -> Seq<TreeContext>
    decreases garden.groups@.len() - k,
{
    if k < 0 || k >= garden.groups@.len() {
        Seq::empty()
    } else {
        let head = if glob_ok(garden.groups@[k]@) {
            groups_scan_model(cfg, cm, Some(garden.index), garden.groups@[k]@, 0)
        } else {
            Seq::empty()
        };
        head + garden_groups_model(cfg, cm, garden, k + 1)
    }
}

/// The trees a garden draws through its direct tree patterns from
/// position `k` on.
pub open spec fn garden_list_model(
    cfg: Configuration,
    cm: Map<Seq<char>, Option<Seq<char>>>,
    garden: Garden,
    k: int,
) -> Seq<TreeContext>
    decreases garden.trees@.len() - k,
{
    if k < 0 || k >= garden.trees@.len() {
        Seq::empty()
    } else {
        trees_from_pattern_model(cfg, cm, garden.trees@[k]@, Some(garden.index), None)
            + garden_list_model(cfg, cm, garden, k + 1)
    }
}

/// What a garden designates: the union of its group expansions and its
/// direct tree listings, in group-list-then-tree-list order, every
/// context tagged with the garden's stored index.
pub open spec fn trees_from_garden_model(
    cfg: Configuration,
    cm: Map<Seq<char>, Option<Seq<char>>>,
    garden: Garden,
) -> Seq<TreeContext> {
    garden_groups_model(cfg, cm, garden, 0) + garden_list_model(cfg, cm, garden, 0)
}

/// The expansions of every configured garden from position `i` on whose
/// name matches the pattern, in garden order.
pub open spec fn gardens_scan_model(
    cfg: Configuration,
    cm: Map<Seq<char>, Option<Seq<char>>>,
    pat: Seq<char>,
    i: int,
) -> Seq<TreeContext>
    decreases cfg.gardens@.len() - i,
{
    if i < 0 || i >= cfg.gardens@.len() {
        Seq::empty()
    } else {
        let head = if glob_match(pat, cfg.gardens@[i].name@) {
            trees_from_garden_model(cfg, cm, cfg.gardens@[i])
        } else {
            Seq::empty()
        };
        head + gardens_scan_model(cfg, cm, pat, i + 1)
    }
}

/// What a garden pattern designates: nothing for an invalid pattern,
/// else every matching garden's expansion.
pub open spec fn garden_trees_model(
    cfg: Configuration,
    cm: Map<Seq<char>, Option<Seq<char>>>,
    pat: Seq<char>,
) -> Seq<TreeContext> {
    if glob_ok(pat) {
        gardens_scan_model(cfg, cm, pat, 0)
    } else {
        Seq::empty()
    }
}

/// The first tree from position `i` on whose name equals `name` exactly.
pub open spec fn name_match_from(cfg: Configuration, name: Seq<char>, i: int) -> Option<int>
    decreases cfg.trees@.len() - i,
{
    if i < 0 || i >= cfg.trees@.len() {
        None
    } else if cfg.trees@[i].name@ == name {
        Some(i)
    } else {
        name_match_from(cfg, name, i + 1)
    }
}

/// What an exact tree name designates: the first tree of that name under
/// the given scopes, and otherwise the name read as a filesystem path.
pub open spec fn tree_from_name_model(
    cfg: Configuration,
    cm: Map<Seq<char>, Option<Seq<char>>>,
    name: Seq<char>,
    gi: Option<GardenIndex>,
    gri: Option<GroupIndex>,
) -> Option<TreeContext> {
    match name_match_from(cfg, name, 0) {
        Some(t) => Some(ctx_of(t, gi, gri)),
        None => tree_from_path_model(cfg, cm, name),
    }
}

/// What a query designates, in strict precedence order with a
/// short-circuit on the first non-empty result: matching gardens first,
/// else matching groups, else matching trees, else — for a default query
/// only — the query read as a filesystem path.
pub open spec fn resolve_trees_model(
    cfg: Configuration,
    cm: Map<Seq<char>, Option<Seq<char>>>,
    q: Seq<char>,
) -> Seq<TreeContext> {
    let tq = parse_query(q);
    let g = if tq.include_gardens {
        garden_trees_model(cfg, cm, tq.pattern)
    } else {
        Seq::empty()
    };
    if g.len() > 0 {
        g
    } else {
        let gr = if tq.include_groups && glob_ok(tq.pattern) {
            groups_scan_model(cfg, cm, None, tq.pattern, 0)
        } else {
            Seq::empty()
        };
        if gr.len() > 0 {
            gr
        } else {
            let t = if tq.include_trees && glob_ok(tq.pattern) {
                trees_matching(cfg, tq.pattern, None, None, 0)
            } else {
                Seq::empty()
            };
            if t.len() > 0 {
                t
            } else {
                if tq.is_default {
                    match tree_from_path_model(cfg, cm, q) {
                        Some(c) => seq![c],
                        None => Seq::empty(),
                    }
                } else {
                    Seq::empty()
                }
            }
        }
    }
}

/// Appends `src` to `dst`.
fn extend_ctxs(dst: &mut Vec<TreeContext>, src: &Vec<TreeContext>)
    ensures
        final(dst)@ == old(dst)@ + src@,
{
    let mut k: usize = 0;
    while k < src.len()
        invariant
            k <= src@.len(),
            dst@ == old(dst)@ + src@.subrange(0, k as int),
        decreases src@.len() - k,
    {
        dst.push(src[k]);
        assert(dst@ =~= old(dst)@ + src@.subrange(0, k + 1 as int));
        k = k + 1;
    }
    assert(old(dst)@ + src@.subrange(0, src@.len() as int) =~= old(dst)@ + src@);
}

/// The contexts of every tree whose name matches the valid pattern,
/// tagged with the given scopes.
fn trees_with(
    config: &Configuration,
    pattern: &str,
    gi: Option<GardenIndex>,
    gri: Option<GroupIndex>,
) -> (r: Vec<TreeContext>)
    requires
        glob_ok(pattern@),
    ensures
        r@ == trees_matching(*config, pattern@, gi, gri, 0),
{
    let mut r: Vec<TreeContext> = Vec::new();
    let mut i: usize = 0;
    while i < config.trees.len()
        invariant
            i <= config.trees@.len(),
            glob_ok(pattern@),
            trees_matching(*config, pattern@, gi, gri, 0) == r@ + trees_matching(
                *config,
                pattern@,
                gi,
                gri,
                i as int,
            ),
        decreases config.trees@.len() - i,
    {
        let ghost pre = r@;
        if match_name(pattern, config.trees[i].name.as_str()) {
            r.push(TreeContext { tree: i, garden: gi, group: gri });
            proof {
                assert(r@ =~= pre + seq![ctx_of(i as int, gi, gri)]);
                assert(pre + (seq![ctx_of(i as int, gi, gri)] + trees_matching(
                    *config,
                    pattern@,
                    gi,
                    gri,
                    i + 1,
                )) =~= r@ + trees_matching(*config, pattern@, gi, gri, i + 1));
            }
        }
        i = i + 1;
    }
    assert(r@ + trees_matching(*config, pattern@, gi, gri, config.trees@.len() as int) =~= r@);
    r
}

/// The tree whose canonical path equals the canonical form the table
/// gives `path`, if any.
fn tree_from_path_with(config: &Configuration, pl: &PathLookup, path: &str) -> (r: Option<
    TreeContext,
>)
    ensures
        r == tree_from_path_model(*config, path_map(*pl), path@),
{
    let ghost cm = path_map(*pl);
    let target = match pl.get(path) {
        Some(c) => c,
        None => {
            return None;
        },
    };
    let mut i: usize = 0;
    while i < config.trees.len()
        invariant
            i <= config.trees@.len(),
            cm == path_map(*pl),
            canon_of(cm, path@) == Some(target@),
            path_match_from(*config, cm, target@, 0) == path_match_from(
                *config,
                cm,
                target@,
                i as int,
            ),
        decreases config.trees@.len() - i,
    {
        let hit = match &config.trees[i].path.resolved {
            Some(p) => {
                match pl.get(p.as_str()) {
                    Some(tc) => str_eq(tc.as_str(), target.as_str()),
                    None => false,
                }
            },
            None => false,
        };
        if hit {
            assert(tree_canon(*config, cm, i as int) == Some(target@));
            return Some(TreeContext { tree: i, garden: None, group: None });
        }
        assert(tree_canon(*config, cm, i as int) != Some(target@));
        i = i + 1;
    }
    None
}

/// The trees a member pattern designates: name matches first, else the
/// pattern read as a filesystem path; an invalid pattern designates
/// nothing.
fn trees_from_pattern_with(
    config: &Configuration,
    pl: &PathLookup,
    pattern: &str,
    gi: Option<GardenIndex>,
    gri: Option<GroupIndex>,
) -> (r: Vec<TreeContext>)
    ensures
        r@ == trees_from_pattern_model(*config, path_map(*pl), pattern@, gi, gri),
{
    if !glob_valid(pattern) {
        let r: Vec<TreeContext> = Vec::new();
        assert(r@ =~= trees_from_pattern_model(*config, path_map(*pl), pattern@, gi, gri));
        return r;
    }
    let mut r = trees_with(config, pattern, gi, gri);
    if r.len() == 0 {
        match tree_from_path_with(config, pl, pattern) {
            Some(c) => {
                r.push(c);
                assert(r@ =~= seq![c]);
            },
            None => {},
        }
    }
    r
}

/// The trees a group designates under an optional garden scope: each
/// member pattern expanded in order, tagged with the group's stored
/// index.
fn trees_from_group_with(
    config: &Configuration,
    pl: &PathLookup,
    gi: Option<GardenIndex>,
    group: &Group,
) -> (r: Vec<TreeContext>)
    ensures
        r@ == trees_from_group_model(*config, path_map(*pl), gi, *group),
{
    let ghost cm = path_map(*pl);
    let mut r: Vec<TreeContext> = Vec::new();
    let mut k: usize = 0;
    while k < group.members.len()
        invariant
            k <= group.members@.len(),
            cm == path_map(*pl),
            group_members_model(*config, cm, gi, *group, 0) == r@ + group_members_model(
                *config,
                cm,
                gi,
                *group,
                k as int,
            ),
        decreases group.members@.len() - k,
    {
        let ghost pre = r@;
        let sub = trees_from_pattern_with(
            config,
            pl,
            group.members[k].as_str(),
            gi,
            Some(group.index),
        );
        extend_ctxs(&mut r, &sub);
        proof {
            assert(pre + (sub@ + group_members_model(*config, cm, gi, *group, k + 1)) =~= r@
                + group_members_model(*config, cm, gi, *group, k + 1));
        }
        k = k + 1;
    }
    assert(r@ + group_members_model(*config, cm, gi, *group, group.members@.len() as int) =~= r@);
    r
}

/// The trees a garden designates: its group patterns expanded against the
/// configured groups, then its direct tree patterns, every context tagged
/// with the garden's stored index.
fn trees_from_garden_with(config: &Configuration, pl: &PathLookup, garden: &Garden) -> (r: Vec<
    TreeContext,
>)
    ensures
        r@ == trees_from_garden_model(*config, path_map(*pl), *garden),
{
    let ghost cm = path_map(*pl);
    let mut r: Vec<TreeContext> = Vec::new();
    let mut k: usize = 0;
    while k < garden.groups.len()
        invariant
            k <= garden.groups@.len(),
            cm == path_map(*pl),
            garden_groups_model(*config, cm, *garden, 0) == r@ + garden_groups_model(
                *config,
                cm,
                *garden,
                k as int,
            ),
        decreases garden.groups@.len() - k,
    {
        let ghost pre = r@;
        let pat = &garden.groups[k];
        if glob_valid(pat.as_str()) {
            // Scan the configured groups for this pattern.
            let mut g: usize = 0;
            while g < config.groups.len()
                invariant
                    g <= config.groups@.len(),
                    cm == path_map(*pl),
                    glob_ok(pat@),
                    pat@ == garden.groups@[k as int]@,
                    k < garden.groups@.len(),
                    pre + groups_scan_model(*config, cm, Some(garden.index), pat@, 0) == r@
                        + groups_scan_model(*config, cm, Some(garden.index), pat@, g as int),
                decreases config.groups@.len() - g,
            {
                let ghost pre2 = r@;
                if match_name(pat.as_str(), config.groups[g].name.as_str()) {
                    let sub = trees_from_group_with(
                        config,
                        pl,
                        Some(garden.index),
                        &config.groups[g],
                    );
                    extend_ctxs(&mut r, &sub);
                    proof {
                        assert(pre2 + (sub@ + groups_scan_model(
                            *config,
                            cm,
                            Some(garden.index),
                            pat@,
                            g + 1,
                        )) =~= r@ + groups_scan_model(*config, cm, Some(garden.index), pat@, g + 1));
                    }
                } else {
                    proof {
                        assert(Seq::<TreeContext>::empty() + groups_scan_model(
                            *config,
                            cm,
                            Some(garden.index),
                            pat@,
                            g + 1,
                        ) =~= groups_scan_model(*config, cm, Some(garden.index), pat@, g + 1));
                    }
                }
                g = g + 1;
            }
            proof {
                assert(groups_scan_model(
                    *config,
                    cm,
                    Some(garden.index),
                    pat@,
                    config.groups@.len() as int,
                ) == Seq::<TreeContext>::empty());
                assert(r@ + Seq::<TreeContext>::empty() =~= r@);
                assert(pre + groups_scan_model(*config, cm, Some(garden.index), pat@, 0) =~= r@);
            }
        }
        proof {
            let head = if glob_ok(garden.groups@[k as int]@) {
                groups_scan_model(*config, cm, Some(garden.index), garden.groups@[k as int]@, 0)
            } else {
                Seq::<TreeContext>::empty()
            };
            assert(r@ =~= pre + head);
            assert((pre + head) + garden_groups_model(*config, cm, *garden, k + 1) =~= pre + (head
                + garden_groups_model(*config, cm, *garden, k + 1)));
        }
        k = k + 1;
    }
    assert(r@ + garden_groups_model(*config, cm, *garden, garden.groups@.len() as int) =~= r@);
    // The garden's direct tree patterns.
    let ghost groups_part = r@;
    let mut k2: usize = 0;
    while k2 < garden.trees.len()
        invariant
            k2 <= garden.trees@.len(),
            cm == path_map(*pl),
            groups_part == garden_groups_model(*config, cm, *garden, 0),
            groups_part + garden_list_model(*config, cm, *garden, 0) == r@ + garden_list_model(
                *config,
                cm,
                *garden,
                k2 as int,
            ),
        decreases garden.trees@.len() - k2,
    {
        let ghost pre = r@;
        let sub = trees_from_pattern_with(
            config,
            pl,
            garden.trees[k2].as_str(),
            Some(garden.index),
            None,
        );
        extend_ctxs(&mut r, &sub);
        proof {
            assert(pre + (sub@ + garden_list_model(*config, cm, *garden, k2 + 1)) =~= r@
                + garden_list_model(*config, cm, *garden, k2 + 1));
        }
        k2 = k2 + 1;
    }
    assert(r@ + garden_list_model(*config, cm, *garden, garden.trees@.len() as int) =~= r@);
    r
}

/// The trees every garden matching the pattern designates, in garden
/// order; an invalid pattern designates nothing.
fn garden_trees_with(config: &Configuration, pl: &PathLookup, pattern: &str) -> (r: Vec<
    TreeContext,
>)
    ensures
        r@ == garden_trees_model(*config, path_map(*pl), pattern@),
{
    let ghost cm = path_map(*pl);
    let mut r: Vec<TreeContext> = Vec::new();
    if !glob_valid(pattern) {
        assert(r@ =~= garden_trees_model(*config, cm, pattern@));
        return r;
    }
    let mut i: usize = 0;
    while i < config.gardens.len()
        invariant
            i <= config.gardens@.len(),
            cm == path_map(*pl),
            glob_ok(pattern@),
            gardens_scan_model(*config, cm, pattern@, 0) == r@ + gardens_scan_model(
                *config,
                cm,
                pattern@,
                i as int,
            ),
        decreases config.gardens@.len() - i,
    {
        let ghost pre = r@;
        if match_name(pattern, config.gardens[i].name.as_str()) {
            let sub = trees_from_garden_with(config, pl, &config.gardens[i]);
            extend_ctxs(&mut r, &sub);
            proof {
                assert(pre + (sub@ + gardens_scan_model(*config, cm, pattern@, i + 1)) =~= r@
                    + gardens_scan_model(*config, cm, pattern@, i + 1));
            }
        } else {
            proof {
                assert(Seq::<TreeContext>::empty() + gardens_scan_model(
                    *config,
                    cm,
                    pattern@,
                    i + 1,
                ) =~= gardens_scan_model(*config, cm, pattern@, i + 1));
            }
        }
        i = i + 1;
    }
    assert(r@ + gardens_scan_model(*config, cm, pattern@, config.gardens@.len() as int) =~= r@);
    r
}

/// The context an exact tree name designates under the given scopes.
fn tree_from_name_with(
    config: &Configuration,
    pl: &PathLookup,
    tree: &str,
    gi: Option<GardenIndex>,
    gri: Option<GroupIndex>,
) -> (r: Option<TreeContext>)
    ensures
        r == tree_from_name_model(*config, path_map(*pl), tree@, gi, gri),
{
    let mut i: usize = 0;
    while i < config.trees.len()
        invariant
            i <= config.trees@.len(),
            name_match_from(*config, tree@, 0) == name_match_from(*config, tree@, i as int),
        decreases config.trees@.len() - i,
    {
        if str_eq(config.trees[i].name.as_str(), tree) {
            return Some(TreeContext { tree: i, garden: gi, group: gri });
        }
        i = i + 1;
    }
    tree_from_path_with(config, pl, tree)
}

/// Gathers into a table the canonical form of every path string this
/// configuration's resolution may consult — every group member pattern,
/// every garden tree pattern, every tree's resolved path — and of the
/// query string itself.
fn build_lookup(config: &Configuration, extra: &str) -> (pl: PathLookup) {
    let mut pl = PathLookup::new();
    pl.add(extra);
    let mut i: usize = 0;
    while i < config.groups.len()
        decreases config.groups@.len() - i,
    {
        let mut k: usize = 0;
        while k < config.groups[i].members.len()
            invariant
                i < config.groups@.len(),
            decreases config.groups@[i as int].members@.len() - k,
        {
            pl.add(config.groups[i].members[k].as_str());
            k = k + 1;
        }
        i = i + 1;
    }
    let mut i2: usize = 0;
    while i2 < config.gardens.len()
        decreases config.gardens@.len() - i2,
    {
        let mut k: usize = 0;
        while k < config.gardens[i2].trees.len()
            invariant
                i2 < config.gardens@.len(),
            decreases config.gardens@[i2 as int].trees@.len() - k,
        {
            pl.add(config.gardens[i2].trees[k].as_str());
            k = k + 1;
        }
        i2 = i2 + 1;
    }
    let mut i3: usize = 0;
    while i3 < config.trees.len()
        decreases config.trees@.len() - i3,
    {
        match &config.trees[i3].path.resolved {
            Some(p) => {
                pl.add(p.as_str());
            },
            None => {},
        }
        i3 = i3 + 1;
    }
    pl
}

/// Resolves a query against a table of canonical path forms: exactly the
/// contexts [`resolve_trees_model`] states for the table's map.
pub fn resolve_trees_with_lookup(config: &Configuration, pl: &PathLookup, query: &str) -> (r: Vec<
    TreeContext,
>)
    ensures
        r@ == resolve_trees_model(*config, path_map(*pl), query@),
{
    let ghost cm = path_map(*pl);
    let tq = TreeQuery::new(query);
    if tq.include_gardens {
        let g = garden_trees_with(config, pl, tq.pattern.as_str());
        if g.len() > 0 {
            return g;
        }
    }
    if tq.include_groups && glob_valid(tq.pattern.as_str()) {
        let mut r: Vec<TreeContext> = Vec::new();
        let mut i: usize = 0;
        while i < config.groups.len()
            invariant
                i <= config.groups@.len(),
                cm == path_map(*pl),
                glob_ok(tq.pattern@),
                groups_scan_model(*config, cm, None, tq.pattern@, 0) == r@ + groups_scan_model(
                    *config,
                    cm,
                    None,
                    tq.pattern@,
                    i as int,
                ),
            decreases config.groups@.len() - i,
        {
            let ghost pre = r@;
            if match_name(tq.pattern.as_str(), config.groups[i].name.as_str()) {
                let sub = trees_from_group_with(config, pl, None, &config.groups[i]);
                extend_ctxs(&mut r, &sub);
                proof {
                    assert(pre + (sub@ + groups_scan_model(*config, cm, None, tq.pattern@, i + 1))
                        =~= r@ + groups_scan_model(*config, cm, None, tq.pattern@, i + 1));
                }
            } else {
                proof {
                    assert(Seq::<TreeContext>::empty() + groups_scan_model(
                        *config,
                        cm,
                        None,
                        tq.pattern@,
                        i + 1,
                    ) =~= groups_scan_model(*config, cm, None, tq.pattern@, i + 1));
                }
            }
            i = i + 1;
        }
        assert(r@ + groups_scan_model(*config, cm, None, tq.pattern@, config.groups@.len() as int)
            =~= r@);
        if r.len() > 0 {
            return r;
        }
    }
    if tq.include_trees && glob_valid(tq.pattern.as_str()) {
        let t = trees_with(config, tq.pattern.as_str(), None, None);
        if t.len() > 0 {
            return t;
        }
    }
    let mut r: Vec<TreeContext> = Vec::new();
    if tq.is_default {
        match tree_from_path_with(config, pl, tq.query.as_str()) {
            Some(c) => {
                r.push(c);
                assert(r@ =~= seq![c]);
            },
            None => {},
        }
    }
    r
}

/// Resolves a tree query into the ordered tree contexts it designates:
/// matching gardens outrank matching groups, which outrank matching
/// trees; a default query matching nothing by name is read as a
/// filesystem path. The result is exactly [`resolve_trees_model`] under
/// the canonical path forms the filesystem gave this call.
pub fn resolve_trees(config: &Configuration, query: &str) -> (r: Vec<TreeContext>)
    ensures
        exists|cm: Map<Seq<char>, Option<Seq<char>>>|
            r@ == resolve_trees_model(*config, cm, query@),
        ctxs_in_bounds(*config, r@),
{
    let pl = build_lookup(config, query);
    let r = resolve_trees_with_lookup(config, &pl, query);
    proof {
        assert(r@ == resolve_trees_model(*config, path_map(pl), query@));
        lemma_resolve_in_bounds(*config, path_map(pl), query@);
    }
    r
}

/// The tree contexts of every garden matching the pattern, in garden
/// order; an invalid pattern yields nothing.
pub fn garden_trees(config: &Configuration, pattern: &str) -> (r: Vec<TreeContext>)
    ensures
        exists|cm: Map<Seq<char>, Option<Seq<char>>>|
            r@ == garden_trees_model(*config, cm, pattern@),
        ctxs_in_bounds(*config, r@),
{
    let pl = build_lookup(config, pattern);
    let r = garden_trees_with(config, &pl, pattern);
    proof {
        assert(r@ == garden_trees_model(*config, path_map(pl), pattern@));
        if glob_ok(pattern@) {
            lemma_gardens_scan_bounds(*config, path_map(pl), pattern@, 0);
        }
    }
    r
}

/// The tree contexts a garden designates.
pub fn trees_from_garden(config: &Configuration, garden: &Garden) -> (r: Vec<TreeContext>)
    ensures
        exists|cm: Map<Seq<char>, Option<Seq<char>>>|
            r@ == trees_from_garden_model(*config, cm, *garden),
        ctxs_in_bounds(*config, r@),
{
    let mut pl = PathLookup::new();
    let mut k: usize = 0;
    while k < garden.trees.len()
        decreases garden.trees@.len() - k,
    {
        pl.add(garden.trees[k].as_str());
        k = k + 1;
    }
    let mut i: usize = 0;
    while i < config.groups.len()
        decreases config.groups@.len() - i,
    {
        let mut k2: usize = 0;
        while k2 < config.groups[i].members.len()
            invariant
                i < config.groups@.len(),
            decreases config.groups@[i as int].members@.len() - k2,
        {
            pl.add(config.groups[i].members[k2].as_str());
            k2 = k2 + 1;
        }
        i = i + 1;
    }
    let mut i2: usize = 0;
    while i2 < config.trees.len()
        decreases config.trees@.len() - i2,
    {
        match &config.trees[i2].path.resolved {
            Some(p) => {
                pl.add(p.as_str());
            },
            None => {},
        }
        i2 = i2 + 1;
    }
    let r = trees_from_garden_with(config, &pl, garden);
    proof {
        assert(r@ == trees_from_garden_model(*config, path_map(pl), *garden));
        lemma_garden_bounds(*config, path_map(pl), *garden);
    }
    r
}

/// The tree contexts a group designates under an optional garden scope.
pub fn trees_from_group(config: &Configuration, garden: Option<GardenIndex>, group: &Group) -> (r:
    Vec<TreeContext>)
    ensures
        exists|cm: Map<Seq<char>, Option<Seq<char>>>|
            r@ == trees_from_group_model(*config, cm, garden, *group),
        ctxs_in_bounds(*config, r@),
{
    let mut pl = PathLookup::new();
    let mut k: usize = 0;
    while k < group.members.len()
        decreases group.members@.len() - k,
    {
        pl.add(group.members[k].as_str());
        k = k + 1;
    }
    let mut i: usize = 0;
    while i < config.trees.len()
        decreases config.trees@.len() - i,
    {
        match &config.trees[i].path.resolved {
            Some(p) => {
                pl.add(p.as_str());
            },
            None => {},
        }
        i = i + 1;
    }
    let r = trees_from_group_with(config, &pl, garden, group);
    proof {
        assert(r@ == trees_from_group_model(*config, path_map(pl), garden, *group));
        lemma_group_bounds(*config, path_map(pl), garden, *group, 0);
    }
    r
}

/// Finds a tree by exact name under optional scopes, falling back to
/// reading the name as a filesystem path.
pub fn tree_from_name(
    config: &Configuration,
    tree: &str,
    garden_idx: Option<GardenIndex>,
    group_idx: Option<GroupIndex>,
) -> (r: Option<TreeContext>)
    ensures
        exists|cm: Map<Seq<char>, Option<Seq<char>>>|
            r == tree_from_name_model(*config, cm, tree@, garden_idx, group_idx),
        r matches Some(c) ==> c.tree < config.trees@.len(),
{
    let pl = build_lookup(config, tree);
    let r = tree_from_name_with(config, &pl, tree, garden_idx, group_idx);
    proof {
        assert(r == tree_from_name_model(*config, path_map(pl), tree@, garden_idx, group_idx));
        lemma_name_match_bounds(*config, tree@, 0);
        match canon_of(path_map(pl), tree@) {
            None => {},
            Some(c) => {
                lemma_path_match_scopeless(*config, path_map(pl), c, 0);
            },
        }
    }
    r
}

/// Finds the trees matching a name pattern under optional scopes, falling
/// back to reading the pattern as a filesystem path when no name matches.
pub fn trees_from_pattern(
    config: &Configuration,
    tree: &str,
    garden_idx: Option<GardenIndex>,
    group_idx: Option<GroupIndex>,
) -> (r: Vec<TreeContext>)
    ensures
        exists|cm: Map<Seq<char>, Option<Seq<char>>>|
            r@ == trees_from_pattern_model(*config, cm, tree@, garden_idx, group_idx),
        ctxs_in_bounds(*config, r@),
{
    let pl = build_lookup(config, tree);
    let r = trees_from_pattern_with(config, &pl, tree, garden_idx, group_idx);
    proof {
        assert(r@ == trees_from_pattern_model(*config, path_map(pl), tree@, garden_idx, group_idx));
        lemma_pattern_bounds(*config, path_map(pl), tree@, garden_idx, group_idx);
    }
    r
}

/// The tree whose canonical path equals the canonical form of `path`,
/// with no garden or group scope.
pub fn tree_from_path(config: &Configuration, path: &str) -> (r: Option<TreeContext>)
    ensures
        exists|cm: Map<Seq<char>, Option<Seq<char>>>|
            r == tree_from_path_model(*config, cm, path@),
        r matches Some(c) ==> c.tree < config.trees@.len() && c.garden is None && c.group
            is None,
{
    let pl = build_lookup(config, path);
    let r = tree_from_path_with(config, &pl, path);
    proof {
        assert(r == tree_from_path_model(*config, path_map(pl), path@));
        match canon_of(path_map(pl), path@) {
            None => {},
            Some(c) => {
                lemma_path_match_scopeless(*config, path_map(pl), c, 0);
            },
        }
    }
    r
}

/// The message for a tree name that exists nowhere.
pub open spec fn no_tree_err(tree: Seq<char>) -> Seq<char> {
    "unable to find '"@ + tree + "': No tree exists with that name"@
}

/// The message for a garden name that matches no garden.
pub open spec fn no_garden_err(garden: Seq<char>) -> Seq<char> {
    "unable to find '"@ + garden + "': No garden exists with that name"@
}

/// The message for a tree that is not part of the named garden.
pub open spec fn not_in_garden_err(tree: Seq<char>, garden: Seq<char>) -> Seq<char> {
    "invalid arguments: '"@ + tree + "' is not part of the '"@ + garden + "' garden"@
}

/// The first context from position `k` on naming the tree `t`.
pub open spec fn first_same_tree(ctxs: Seq<TreeContext>, t: usize, k: int) -> Option<int>
    decreases ctxs.len() - k,
{
    if k < 0 || k >= ctxs.len() {
        None
    } else if ctxs[k].tree == t {
        Some(k)
    } else {
        first_same_tree(ctxs, t, k + 1)
    }
}

/// What naming one tree, optionally constrained to one garden, yields: the
/// tree's context, its garden scope taken from the first of the garden's
/// contexts naming it; or the message distinguishing a missing tree, a
/// missing garden, and a tree outside the garden.
pub open spec fn tree_context_model(
    cfg: Configuration,
    cm: Map<Seq<char>, Option<Seq<char>>>,
    tree: Seq<char>,
    garden: Option<Seq<char>>,
) -> Result<TreeContext, Seq<char>> {
    match tree_from_name_model(cfg, cm, tree, None, None) {
        None => Err(no_tree_err(tree)),
        Some(c0) => match garden {
            None => Ok(ctx_of(c0.tree as int, None, None)),
            Some(g) => {
                let contexts = garden_trees_model(cfg, cm, g);
                if contexts.len() == 0 {
                    Err(no_garden_err(g))
                } else {
                    match first_same_tree(contexts, c0.tree, 0) {
                        Some(k) => Ok(
                            TreeContext { tree: c0.tree, garden: contexts[k].garden, group: None },
                        ),
                        None => Err(not_in_garden_err(tree, g)),
                    }
                }
            },
        },
    }
}

/// Resolves one tree name, optionally constrained to one garden, to a
/// context, with a descriptive message distinguishing "no such tree",
/// "no such garden" and "tree not part of that garden".
pub fn tree_context(config: &Configuration, tree: &str, garden: Option<String>) -> (r: Result<
    TreeContext,
    String,
>)
    ensures
        match r {
            Ok(c) => exists|cm: Map<Seq<char>, Option<Seq<char>>>|
                #[trigger] tree_context_model(*config, cm, tree@, opt_text(garden)) == Ok::<
                    TreeContext,
                    Seq<char>,
                >(c),
            Err(e) => exists|cm: Map<Seq<char>, Option<Seq<char>>>|
                #[trigger] tree_context_model(*config, cm, tree@, opt_text(garden)) == Err::<
                    TreeContext,
                    Seq<char>,
                >(e@),
        },
        r matches Ok(c) ==> c.tree < config.trees@.len(),
{
    let pl = match &garden {
        Some(g) => build_lookup(config, g.as_str()),
        None => build_lookup(config, tree),
    };
    let ghost cm = path_map(pl);
    let c0 = match tree_from_name_with(config, &pl, tree, None, None) {
        Some(c) => c,
        None => {
            let msg = String::from_str("unable to find '").concat(tree).concat(
                "': No tree exists with that name",
            );
            proof {
                assert(msg@ == no_tree_err(tree@));
                assert(tree_context_model(*config, cm, tree@, opt_text(garden)) == Err::<
                    TreeContext,
                    Seq<char>,
                >(no_tree_err(tree@)));
            }
            return Err(msg);
        },
    };
    proof {
        lemma_name_match_bounds(*config, tree@, 0);
        match canon_of(cm, tree@) {
            None => {},
            Some(c) => {
                lemma_path_match_scopeless(*config, cm, c, 0);
            },
        }
        assert(c0.tree < config.trees@.len());
    }
    match &garden {
        None => {
            proof {
                assert(tree_context_model(*config, cm, tree@, opt_text(garden)) == Ok::<
                    TreeContext,
                    Seq<char>,
                >(ctx_of(c0.tree as int, None, None)));
            }
            Ok(TreeContext { tree: c0.tree, garden: None, group: None })
        },
        Some(g) => {
            let contexts = garden_trees_with(config, &pl, g.as_str());
            if contexts.len() == 0 {
                let msg = String::from_str("unable to find '").concat(g.as_str()).concat(
                    "': No garden exists with that name",
                );
                proof {
                    assert(msg@ == no_garden_err(g@));
                    assert(tree_context_model(*config, cm, tree@, opt_text(garden)) == Err::<
                        TreeContext,
                        Seq<char>,
                    >(no_garden_err(g@)));
                }
                return Err(msg);
            }
            let mut k: usize = 0;
            while k < contexts.len()
                invariant
                    k <= contexts@.len(),
                    cm == path_map(pl),
                    contexts@ == garden_trees_model(*config, cm, g@),
                    contexts@.len() > 0,
                    garden matches Some(gs) && gs@ == g@,
                    tree_from_name_model(*config, cm, tree@, None, None) == Some(c0),
                    c0.tree < config.trees@.len(),
                    first_same_tree(contexts@, c0.tree, 0) == first_same_tree(
                        contexts@,
                        c0.tree,
                        k as int,
                    ),
                decreases contexts@.len() - k,
            {
                if contexts[k].tree == c0.tree {
                    proof {
                        assert(first_same_tree(contexts@, c0.tree, k as int) == Some(k as int));
                        assert(tree_context_model(*config, cm, tree@, opt_text(garden)) == Ok::<
                            TreeContext,
                            Seq<char>,
                        >(
                            TreeContext {
                                tree: c0.tree,
                                garden: contexts@[k as int].garden,
                                group: None,
                            },
                        ));
                    }
                    return Ok(
                        TreeContext { tree: c0.tree, garden: contexts[k].garden, group: None },
                    );
                }
                k = k + 1;
            }
            let msg = String::from_str("invalid arguments: '").concat(tree).concat(
                "' is not part of the '",
            ).concat(g.as_str()).concat("' garden");
            proof {
                assert(msg@ == not_in_garden_err(tree@, g@));
                assert(first_same_tree(contexts@, c0.tree, 0) is None);
                assert(tree_context_model(*config, cm, tree@, opt_text(garden)) == Err::<
                    TreeContext,
                    Seq<char>,
                >(not_in_garden_err(tree@, g@)));
            }
            Err(msg)
        },
    }
}

/// The view of an optional string.
pub open spec fn opt_text(o: Option<String>) -> Option<Seq<char>> {
    match o {
        Some(s) => Some(s@),
        None => None,
    }
}

/// An exact-name match names a tree position the configuration has.
proof fn lemma_name_match_bounds(cfg: Configuration, name: Seq<char>, i: int)
    requires
        0 <= i,
    ensures
        match name_match_from(cfg, name, i) {
            Some(t) => i <= t < cfg.trees@.len(),
            None => true,
        },
    decreases cfg.trees@.len() - i,
{
    if i >= cfg.trees@.len() {
    } else if cfg.trees@[i].name@ == name {
    } else {
        lemma_name_match_bounds(cfg, name, i + 1);
    }
}

/// Whether every context in `s` names a tree the configuration has.
pub open spec fn ctxs_in_bounds(cfg: Configuration, s: Seq<TreeContext>) -> bool {
    forall|k: int| 0 <= k < s.len() ==> (#[trigger] s[k]).tree < cfg.trees@.len()
}

/// Concatenation preserves in-bounds contexts.
proof fn lemma_bounds_concat(cfg: Configuration, a: Seq<TreeContext>, b: Seq<TreeContext>)
    requires
        ctxs_in_bounds(cfg, a),
        ctxs_in_bounds(cfg, b),
    ensures
        ctxs_in_bounds(cfg, a + b),
{
    assert forall|k: int| 0 <= k < (a + b).len() implies (#[trigger] (a + b)[k]).tree
        < cfg.trees@.len() by {
        if k < a.len() {
            assert((a + b)[k] == a[k]);
        } else {
            assert((a + b)[k] == b[k - a.len()]);
        }
    }
}

proof fn lemma_trees_matching_bounds(
    cfg: Configuration,
    pat: Seq<char>,
    gi: Option<GardenIndex>,
    gri: Option<GroupIndex>,
    i: int,
)
    requires
        0 <= i,
    ensures
        ctxs_in_bounds(cfg, trees_matching(cfg, pat, gi, gri, i)),
    decreases cfg.trees@.len() - i,
{
    if i >= cfg.trees@.len() {
    } else {
        lemma_trees_matching_bounds(cfg, pat, gi, gri, i + 1);
        if glob_match(pat, cfg.trees@[i].name@) {
            lemma_bounds_concat(
                cfg,
                seq![ctx_of(i, gi, gri)],
                trees_matching(cfg, pat, gi, gri, i + 1),
            );
        }
    }
}

proof fn lemma_pattern_bounds(
    cfg: Configuration,
    cm: Map<Seq<char>, Option<Seq<char>>>,
    pat: Seq<char>,
    gi: Option<GardenIndex>,
    gri: Option<GroupIndex>,
)
    ensures
        ctxs_in_bounds(cfg, trees_from_pattern_model(cfg, cm, pat, gi, gri)),
{
    if glob_ok(pat) {
        lemma_trees_matching_bounds(cfg, pat, gi, gri, 0);
        match canon_of(cm, pat) {
            None => {},
            Some(c) => {
                lemma_path_match_scopeless(cfg, cm, c, 0);
            },
        }
    }
}

proof fn lemma_group_bounds(
    cfg: Configuration,
    cm: Map<Seq<char>, Option<Seq<char>>>,
    gi: Option<GardenIndex>,
    group: Group,
    k: int,
)
    requires
        0 <= k,
    ensures
        ctxs_in_bounds(cfg, group_members_model(cfg, cm, gi, group, k)),
    decreases group.members@.len() - k,
{
    if k >= group.members@.len() {
    } else {
        lemma_group_bounds(cfg, cm, gi, group, k + 1);
        lemma_pattern_bounds(cfg, cm, group.members@[k]@, gi, Some(group.index));
        lemma_bounds_concat(
            cfg,
            trees_from_pattern_model(cfg, cm, group.members@[k]@, gi, Some(group.index)),
            group_members_model(cfg, cm, gi, group, k + 1),
        );
    }
}

proof fn lemma_groups_scan_bounds(
    cfg: Configuration,
    cm: Map<Seq<char>, Option<Seq<char>>>,
    gi: Option<GardenIndex>,
    pat: Seq<char>,
    g: int,
)
    requires
        0 <= g,
    ensures
        ctxs_in_bounds(cfg, groups_scan_model(cfg, cm, gi, pat, g)),
    decreases cfg.groups@.len() - g,
{
    if g >= cfg.groups@.len() {
    } else {
        lemma_groups_scan_bounds(cfg, cm, gi, pat, g + 1);
        let head = if glob_match(pat, cfg.groups@[g].name@) {
            trees_from_group_model(cfg, cm, gi, cfg.groups@[g])
        } else {
            Seq::<TreeContext>::empty()
        };
        if glob_match(pat, cfg.groups@[g].name@) {
            lemma_group_bounds(cfg, cm, gi, cfg.groups@[g], 0);
        }
        lemma_bounds_concat(cfg, head, groups_scan_model(cfg, cm, gi, pat, g + 1));
    }
}

proof fn lemma_garden_bounds(
    cfg: Configuration,
    cm: Map<Seq<char>, Option<Seq<char>>>,
    garden: Garden,
)
    ensures
        ctxs_in_bounds(cfg, trees_from_garden_model(cfg, cm, garden)),
{
    lemma_garden_groups_bounds(cfg, cm, garden, 0);
    lemma_garden_list_bounds(cfg, cm, garden, 0);
    lemma_bounds_concat(
        cfg,
        garden_groups_model(cfg, cm, garden, 0),
        garden_list_model(cfg, cm, garden, 0),
    );
}

proof fn lemma_garden_groups_bounds(
    cfg: Configuration,
    cm: Map<Seq<char>, Option<Seq<char>>>,
    garden: Garden,
    k: int,
)
    requires
        0 <= k,
    ensures
        ctxs_in_bounds(cfg, garden_groups_model(cfg, cm, garden, k)),
    decreases garden.groups@.len() - k,
{
    if k >= garden.groups@.len() {
    } else {
        lemma_garden_groups_bounds(cfg, cm, garden, k + 1);
        let head = if glob_ok(garden.groups@[k]@) {
            groups_scan_model(cfg, cm, Some(garden.index), garden.groups@[k]@, 0)
        } else {
            Seq::<TreeContext>::empty()
        };
        if glob_ok(garden.groups@[k]@) {
            lemma_groups_scan_bounds(cfg, cm, Some(garden.index), garden.groups@[k]@, 0);
        }
        lemma_bounds_concat(cfg, head, garden_groups_model(cfg, cm, garden, k + 1));
    }
}

proof fn lemma_garden_list_bounds(
    cfg: Configuration,
    cm: Map<Seq<char>, Option<Seq<char>>>,
    garden: Garden,
    k: int,
)
    requires
        0 <= k,
    ensures
        ctxs_in_bounds(cfg, garden_list_model(cfg, cm, garden, k)),
    decreases garden.trees@.len() - k,
{
    if k >= garden.trees@.len() {
    } else {
        lemma_garden_list_bounds(cfg, cm, garden, k + 1);
        lemma_pattern_bounds(cfg, cm, garden.trees@[k]@, Some(garden.index), None);
        lemma_bounds_concat(
            cfg,
            trees_from_pattern_model(cfg, cm, garden.trees@[k]@, Some(garden.index), None),
            garden_list_model(cfg, cm, garden, k + 1),
        );
    }
}

proof fn lemma_gardens_scan_bounds(
    cfg: Configuration,
    cm: Map<Seq<char>, Option<Seq<char>>>,
    pat: Seq<char>,
    i: int,
)
    requires
        0 <= i,
    ensures
        ctxs_in_bounds(cfg, gardens_scan_model(cfg, cm, pat, i)),
    decreases cfg.gardens@.len() - i,
{
    if i >= cfg.gardens@.len() {
    } else {
        lemma_gardens_scan_bounds(cfg, cm, pat, i + 1);
        let head = if glob_match(pat, cfg.gardens@[i].name@) {
            trees_from_garden_model(cfg, cm, cfg.gardens@[i])
        } else {
            Seq::<TreeContext>::empty()
        };
        if glob_match(pat, cfg.gardens@[i].name@) {
            lemma_garden_bounds(cfg, cm, cfg.gardens@[i]);
        }
        lemma_bounds_concat(cfg, head, gardens_scan_model(cfg, cm, pat, i + 1));
    }
}

/// Law: stable indices. Every context a query resolves to names a tree
/// position the configuration has, so the positional indices a context
/// carries stay valid for the configuration's lifetime.
pub proof fn lemma_resolve_in_bounds(
    cfg: Configuration,
    cm: Map<Seq<char>, Option<Seq<char>>>,
    q: Seq<char>,
)
    ensures
        ctxs_in_bounds(cfg, resolve_trees_model(cfg, cm, q)),
{
    let tq = parse_query(q);
    if tq.include_gardens && glob_ok(tq.pattern) {
        lemma_gardens_scan_bounds(cfg, cm, tq.pattern, 0);
    }
    if tq.include_groups && glob_ok(tq.pattern) {
        lemma_groups_scan_bounds(cfg, cm, None, tq.pattern, 0);
    }
    if tq.include_trees && glob_ok(tq.pattern) {
        lemma_trees_matching_bounds(cfg, tq.pattern, None, None, 0);
    }
    match canon_of(cm, q) {
        None => {},
        Some(c) => {
            lemma_path_match_scopeless(cfg, cm, c, 0);
        },
    }
}

/// Law: query precedence. Whenever a default or garden-scoped query finds
/// any matching garden with a non-empty expansion, the resolution is
/// exactly the gardens' expansion: groups, trees and the path fallback are
/// never consulted.
pub proof fn lemma_query_precedence(
    cfg: Configuration,
    cm: Map<Seq<char>, Option<Seq<char>>>,
    q: Seq<char>,
)
    requires
        parse_query(q).include_gardens,
        garden_trees_model(cfg, cm, parse_query(q).pattern).len() > 0,
    ensures
        resolve_trees_model(cfg, cm, q) == garden_trees_model(cfg, cm, parse_query(q).pattern),
{
}

/// Every context the path fallback yields carries no garden or group
/// scope and an in-bounds tree position.
pub proof fn lemma_path_match_scopeless(
    cfg: Configuration,
    cm: Map<Seq<char>, Option<Seq<char>>>,
    c: Seq<char>,
    i: int,
)
    requires
        0 <= i,
    ensures
        match path_match_from(cfg, cm, c, i) {
            Some(ctx) => ctx.garden is None && ctx.group is None && ctx.tree
                < cfg.trees@.len(),
            None => true,
        },
    decreases cfg.trees@.len() - i,
{
    if i < 0 || i >= cfg.trees@.len() {
    } else if tree_canon(cfg, cm, i) == Some(c) {
    } else {
        lemma_path_match_scopeless(cfg, cm, c, i + 1);
    }
}

/// Law: fallback to path. A default query that matched no garden, no
/// group and no tree by name resolves to exactly the one tree whose
/// canonical path equals the query's canonical form, with no garden or
/// group scope.
pub proof fn lemma_fallback_to_path(
    cfg: Configuration,
    cm: Map<Seq<char>, Option<Seq<char>>>,
    q: Seq<char>,
    ctx: TreeContext,
)
    requires
        parse_query(q).is_default,
        garden_trees_model(cfg, cm, parse_query(q).pattern).len() == 0,
        glob_ok(parse_query(q).pattern) ==> groups_scan_model(
            cfg,
            cm,
            None,
            parse_query(q).pattern,
            0,
        ).len() == 0,
        glob_ok(parse_query(q).pattern) ==> trees_matching(
            cfg,
            parse_query(q).pattern,
            None,
            None,
            0,
        ).len() == 0,
        tree_from_path_model(cfg, cm, q) == Some(ctx),
    ensures
        resolve_trees_model(cfg, cm, q) == seq![ctx],
        ctx.garden is None,
        ctx.group is None,
        ctx.tree < cfg.trees@.len(),
{
    match canon_of(cm, q) {
        None => {
            assert(false);
        },
        Some(c) => {
            lemma_path_match_scopeless(cfg, cm, c, 0);
        },
    }
}

} // verus!
