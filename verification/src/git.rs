//! The git working-tree topology detector: classifies a repository path
//! against the output of the version-control tool's porcelain worktree
//! listing as a plain checkout, a bare repository, the parent of linked
//! worktrees, or a linked worktree carrying its parent's path.
//!
//! The functions here are pure text classifiers: the caller invokes the
//! version-control tool (`git worktree list --porcelain`, `git
//! symbolic-ref`, `git rev-parse`, `git for-each-ref`) and hands the
//! command output in; an invocation that failed is handed in as `None`
//! and never silently treated as an empty listing.

use crate::interp::find_at;
use crate::interp::lemma_find_at;
use crate::interp::str_eq;
use crate::interp::find_char_at;
use crate::model::resolved_view;
use vstd::prelude::*;

verus! {

/// How a path relates to the git working-tree topology.
#[derive(PartialEq, Eq, Debug)]
pub enum GitTreeType {
    /// An ordinary checkout without linked worktrees.
    Tree,
    /// A bare repository.
    Bare,
    /// The first-listed, primary worktree of a checkout that has
    /// additional linked worktrees.
    Parent,
    /// A linked worktree; carries the parent worktree's path.
    Worktree(String),
}

/// The mathematical shape of a [`GitTreeType`].
pub enum TreeKind {
    Tree,
    Bare,
    Parent,
    Worktree(Seq<char>),
}

/// The view of a topology classification.
pub open spec fn kind_of(t: GitTreeType) -> TreeKind {
    match t {
        GitTreeType::Tree => TreeKind::Tree,
        GitTreeType::Bare => TreeKind::Bare,
        GitTreeType::Parent => TreeKind::Parent,
        GitTreeType::Worktree(p) => TreeKind::Worktree(p@),
    }
}

/// What the topology detector reports for a path: the branch in effect
/// and the topology classification.
#[derive(PartialEq, Eq, Debug)]
pub struct GitTreeDetails {
    pub branch: String,
    pub tree_type: GitTreeType,
}

/// The views of a sequence of strings.
pub open spec fn strs(s: Seq<String>) -> Seq<Seq<char>> {
    s.map_values(|l: String| l@)
}

/// A line with one trailing carriage return removed.
pub open spec fn trim_cr(l: Seq<char>) -> Seq<char> {
    if l.len() > 0 && l[l.len() - 1] == '\r' {
        l.drop_last()
    } else {
        l
    }
}

/// The lines of `s` from `pos` on: split at `'\n'`, each line stripped of
/// one trailing carriage return, with no final empty line for text that
/// ends in a newline.
pub open spec fn split_lines_at(s: Seq<char>, pos: int) -> Seq<Seq<char>>
    decreases s.len() - pos,
{
    if pos < 0 || pos >= s.len() {
        Seq::empty()
    } else {
        match find_at(s, pos, '\n') {
            Some(i) => {
                proof {
                    lemma_find_at(s, pos, '\n');
                }
                seq![trim_cr(s.subrange(pos, i))] + split_lines_at(s, i + 1)
            },
            None => seq![trim_cr(s.subrange(pos, s.len() as int))],
        }
    }
}

/// The lines of `s`.
pub open spec fn split_lines(s: Seq<char>) -> Seq<Seq<char>> {
    split_lines_at(s, 0)
}

/// Whether `l` begins with `p`.
pub open spec fn starts_with(l: Seq<char>, p: Seq<char>) -> bool {
    l.len() >= p.len() && l.subrange(0, p.len() as int) == p
}

/// A line with one trailing carriage return removed.
fn trim_cr_exec(l: &str) -> (r: String)
    ensures
        r@ == trim_cr(l@),
{
    let n = l.unicode_len();
    if n > 0 && l.get_char(n - 1) == '\r' {
        let r = String::from_str(l.substring_char(0, n - 1));
        assert(r@ =~= trim_cr(l@));
        r
    } else {
        String::from_str(l)
    }
}

/// Pushing one string onto a mapped accumulator appends its view.
proof fn lemma_strs_push(g: Seq<String>, v: String)
    ensures
        strs(g.push(v)) == strs(g).push(v@),
{
    assert(strs(g.push(v)) =~= strs(g).push(v@)) by {
        assert(strs(g).len() == g.len());
        assert(strs(g.push(v))[g.len() as int] == v@);
        assert(forall|m: int| 0 <= m < g.len() ==> #[trigger] strs(g.push(v))[m] == strs(g)[m]);
    }
}

/// Splits text into lines at `'\n'`, stripping one trailing carriage
/// return from each line, with no final empty line for text that ends in
/// a newline.
pub fn split_lines_exec(s: &str) -> (r: Vec<String>)
    ensures
        strs(r@) == split_lines(s@),
{
    let n = s.unicode_len();
    let mut r: Vec<String> = Vec::new();
    let mut pos: usize = 0;
    while pos < n
        invariant
            n == s@.len(),
            pos <= n,
            split_lines(s@) == strs(r@) + split_lines_at(s@, pos as int),
        decreases n - pos,
    {
        let ghost g = r@;
        match find_char_at(s, pos, '\n') {
            Some(i) => {
                let line = trim_cr_exec(s.substring_char(pos, i));
                proof {
                    lemma_strs_push(g, line);
                    assert(split_lines_at(s@, pos as int) == seq![trim_cr(
                        s@.subrange(pos as int, i as int),
                    )] + split_lines_at(s@, i + 1));
                }
                r.push(line);
                proof {
                    assert(strs(g) + (seq![trim_cr(s@.subrange(pos as int, i as int))]
                        + split_lines_at(s@, i + 1)) =~= strs(r@) + split_lines_at(s@, i + 1));
                }
                pos = i + 1;
            },
            None => {
                let line = trim_cr_exec(s.substring_char(pos, n));
                proof {
                    lemma_strs_push(g, line);
                    assert(split_lines_at(s@, pos as int) == seq![trim_cr(
                        s@.subrange(pos as int, n as int),
                    )]);
                }
                r.push(line);
                proof {
                    assert(strs(g) + seq![trim_cr(s@.subrange(pos as int, n as int))] =~= strs(
                        r@,
                    ));
                    assert(strs(r@) + split_lines_at(s@, n as int) =~= strs(r@));
                }
                pos = n;
            },
        }
    }
    assert(strs(r@) + split_lines_at(s@, pos as int) =~= strs(r@));
    r
}

/// Whether `s` begins with `p`.
pub fn str_starts_with(s: &str, p: &str) -> (r: bool)
    ensures
        r == starts_with(s@, p@),
{
    let np = p.unicode_len();
    if s.unicode_len() < np {
        return false;
    }
    str_eq(s.substring_char(0, np), p)
}

/// The running state of the porcelain scan: how many worktree records
/// have been seen, the first record's path (the parent), whether the
/// record being examined is the queried path's own, and that record's
/// branch and bare marker.
pub struct ScanView {
    pub count: int,
    pub parent: Seq<char>,
    pub branch: Seq<char>,
    pub is_current: bool,
    pub is_bare: bool,
}

/// The scan state before any line.
pub open spec fn init_scan() -> ScanView {
    ScanView {
        count: 0,
        parent: Seq::empty(),
        branch: Seq::empty(),
        is_current: false,
        is_bare: false,
    }
}

/// One line of the porcelain listing applied to the scan state. A
/// `worktree ` line opens a record: the first record's path is the
/// parent, and the record is current when its path equals the queried
/// path. Within the current record, a `branch refs/heads/` line names the
/// branch and a `bare` line marks a bare repository.
pub open spec fn scan_step(st: ScanView, line: Seq<char>, path: Seq<char>) -> ScanView {
    if starts_with(line, "worktree "@) {
        let wpath = line.subrange("worktree "@.len() as int, line.len() as int);
        ScanView {
            count: st.count + 1,
            parent: if st.count == 0 {
                wpath
            } else {
                st.parent
            },
            branch: st.branch,
            is_current: wpath == path,
            is_bare: st.is_bare,
        }
    } else if st.is_current && starts_with(line, "branch refs/heads/"@) {
        ScanView {
            count: st.count,
            parent: st.parent,
            branch: line.subrange("branch refs/heads/"@.len() as int, line.len() as int),
            is_current: st.is_current,
            is_bare: st.is_bare,
        }
    } else if st.is_current && line == "bare"@ {
        ScanView {
            count: st.count,
            parent: st.parent,
            branch: st.branch,
            is_current: st.is_current,
            is_bare: true,
        }
    } else {
        st
    }
}

/// The scan state after the lines from `i` on.
pub open spec fn scan_lines(lines: Seq<Seq<char>>, path: Seq<char>, i: int, st: ScanView) -> ScanView
    decreases lines.len() - i,
{
    if i < 0 || i >= lines.len() {
        st
    } else {
        scan_lines(lines, path, i + 1, scan_step(st, lines[i], path))
    }
}

/// What the detector reports for a queried path and a porcelain listing:
/// the branch captured from the queried path's own record, and the
/// classification. Fewer than two worktree records means no linked
/// worktrees — bare repository or plain checkout by the bare marker;
/// otherwise the queried path is either the parent (the first-listed
/// record) or a linked worktree carrying the parent's path.
pub open spec fn details_model(path: Seq<char>, output: Seq<char>) -> (Seq<char>, TreeKind) {
    let st = scan_lines(split_lines(output), path, 0, init_scan());
    (
        st.branch,
        if st.count < 2 {
            if st.is_bare {
                TreeKind::Bare
            } else {
                TreeKind::Tree
            }
        } else if path == st.parent {
            TreeKind::Parent
        } else {
            TreeKind::Worktree(st.parent)
        },
    )
}

/// Classifies `path` against `output`, the text that `git worktree list
/// --porcelain`, run inside `path`, printed. `path` is compared literally
/// with the listed worktree paths, so the caller passes it in the same
/// absolute form git prints.
pub fn worktree_details(path: &str, output: &str) -> (r: GitTreeDetails)
    ensures
        r.branch@ == details_model(path@, output@).0,
        kind_of(r.tree_type) == details_model(path@, output@).1,
{
    let lines = split_lines_exec(output);
    let ghost lv = strs(lines@);
    let mut count: usize = 0;
    let mut parent = String::new();
    let mut branch = String::new();
    let mut is_current = false;
    let mut is_bare = false;
    let mut i: usize = 0;
    while i < lines.len()
        invariant
            lv == strs(lines@),
            i <= lines@.len(),
            count <= i,
            scan_lines(lv, path@, 0, init_scan()) == scan_lines(
                lv,
                path@,
                i as int,
                ScanView {
                    count: count as int,
                    parent: parent@,
                    branch: branch@,
                    is_current,
                    is_bare,
                },
            ),
        decreases lines@.len() - i,
    {
        let ghost st = ScanView {
            count: count as int,
            parent: parent@,
            branch: branch@,
            is_current,
            is_bare,
        };
        let line = &lines[i];
        assert(line@ == lv[i as int]);
        let wt_prefix = "worktree ";
        let br_prefix = "branch refs/heads/";
        if str_starts_with(line.as_str(), wt_prefix) {
            let wpath = String::from_str(
                line.as_str().substring_char(wt_prefix.unicode_len(), line.as_str().unicode_len()),
            );
            is_current = str_eq(wpath.as_str(), path);
            if count == 0 {
                parent = wpath;
            }
            count = count + 1;
        } else if is_current && str_starts_with(line.as_str(), br_prefix) {
            branch = String::from_str(
                line.as_str().substring_char(br_prefix.unicode_len(), line.as_str().unicode_len()),
            );
        } else if is_current && str_eq(line.as_str(), "bare") {
            is_bare = true;
        }
        proof {
            assert(scan_step(st, lv[i as int], path@) == ScanView {
                count: count as int,
                parent: parent@,
                branch: branch@,
                is_current,
                is_bare,
            });
        }
        i = i + 1;
    }
    let tree_type = if count < 2 {
        if is_bare {
            GitTreeType::Bare
        } else {
            GitTreeType::Tree
        }
    } else if str_eq(path, parent.as_str()) {
        GitTreeType::Parent
    } else {
        GitTreeType::Worktree(parent)
    };
    GitTreeDetails { branch, tree_type }
}

/// The non-empty lines of `output`, the text that `git for-each-ref
/// --format=%(refname:short) refs/heads`, run inside the repository,
/// printed: the repository's branch names, in listing order.
pub fn branches(output: &str) -> (r: Vec<String>)
    ensures
        strs(r@) == split_lines(output@).filter(|l: Seq<char>| l.len() > 0),
{
    broadcast use vstd::seq_lib::group_seq_properties;

    let lines = split_lines_exec(output);
    let ghost lv = strs(lines@);
    let mut r: Vec<String> = Vec::new();
    let mut i: usize = 0;
    while i < lines.len()
        invariant
            lv == strs(lines@),
            i <= lines@.len(),
            strs(r@) == lv.subrange(0, i as int).filter(|l: Seq<char>| l.len() > 0),
        decreases lines@.len() - i,
    {
        let ghost g = r@;
        let line = &lines[i];
        assert(line@ == lv[i as int]);
        if line.as_str().unicode_len() > 0 {
            let kept = line.clone();
            proof {
                lemma_strs_push(g, kept);
            }
            r.push(kept);
        }
        proof {
            let pred = |l: Seq<char>| l.len() > 0;
            assert(lv.subrange(0, i + 1 as int) =~= lv.subrange(0, i as int) + seq![lv[i as int]]);
            Seq::filter_distributes_over_add(
                lv.subrange(0, i as int),
                seq![lv[i as int]],
                pred,
            );
            reveal_with_fuel(Seq::filter, 2);
            assert(seq![lv[i as int]].drop_last() =~= Seq::<Seq<char>>::empty());
            if pred(lv[i as int]) {
                assert(seq![lv[i as int]].filter(pred) =~= seq![lv[i as int]]);
                assert(strs(r@) =~= lv.subrange(0, i + 1 as int).filter(pred));
            } else {
                assert(seq![lv[i as int]].filter(pred) =~= Seq::<Seq<char>>::empty());
                assert(strs(r@) =~= lv.subrange(0, i + 1 as int).filter(pred));
            }
        }
        i = i + 1;
    }
    assert(lv.subrange(0, lv.len() as int) =~= lv);
    r
}

/// The branch name in effect given what two fallback commands printed:
/// the symbolic-ref lookup of `HEAD` when it yielded text, else the
/// abbreviated commit id (a detached head) when that yielded text, else
/// nothing.
pub open spec fn branch_model(sym: Option<Seq<char>>, rev: Option<Seq<char>>) -> Option<
    Seq<char>,
> {
    if sym is Some && sym->0.len() > 0 {
        sym
    } else if rev is Some && rev->0.len() > 0 {
        rev
    } else {
        None
    }
}

/// The current branch name for a repository, given what `git symbolic-ref
/// --quiet --short HEAD` printed and what `git rev-parse --short HEAD`
/// printed; a failed invocation is handed in as `None`. The caller may
/// pass `None` for the second command without running it when the first
/// yielded text.
pub fn branch(symbolic_ref: Option<String>, rev_parse: Option<String>) -> (r: Option<String>)
    ensures
        resolved_view(r) == branch_model(resolved_view(symbolic_ref), resolved_view(rev_parse)),
{
    match symbolic_ref {
        Some(s) => {
            if s.as_str().unicode_len() > 0 {
                return Some(s);
            }
            match rev_parse {
                Some(t) => {
                    if t.as_str().unicode_len() > 0 {
                        Some(t)
                    } else {
                        None
                    }
                },
                None => None,
            }
        },
        None => {
            match rev_parse {
                Some(t) => {
                    if t.as_str().unicode_len() > 0 {
                        Some(t)
                    } else {
                        None
                    }
                },
                None => None,
            }
        },
    }
}

} // verus!
