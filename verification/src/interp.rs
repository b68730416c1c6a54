//! The interpolation engine: lazy, memoized, cycle-safe expansion of
//! `${name}` references inside expressions.
//!
//! A scope is an ordered table of expressions; a reference is looked up by
//! name, the first entry winning. Resolving an expression scans its raw
//! text, substitutes each reference by the referenced expression's resolved
//! text (resolving it recursively on first demand), and memoizes the result
//! in the expression itself. An unknown reference, and a reference cut off
//! by the recursion bound that guards against cycles, are left as literal
//! `${name}` text rather than failing: partially valid scopes still
//! produce usable strings.
//!
//! The mathematical model is the pair of functions [`eval_str`] and
//! [`eval_idx`], which thread the table's memo states through the
//! computation exactly as the executable engine writes them.

use crate::model::Expression;
use crate::model::resolved_view;
use vstd::prelude::*;

verus! {

/// The names of a scope's entries, in table order.
pub open spec fn names_of(vs: Seq<Expression>) -> Seq<Seq<char>> {
    vs.map_values(|e: Expression| e.name@)
}

/// The raw texts of a scope's entries, in table order.
pub open spec fn exprs_of(vs: Seq<Expression>) -> Seq<Seq<char>> {
    vs.map_values(|e: Expression| e.expr@)
}

/// The memo states of a scope's entries, in table order.
pub open spec fn memos_of(vs: Seq<Expression>) -> Seq<Option<Seq<char>>> {
    vs.map_values(|e: Expression| resolved_view(e.resolved))
}

/// The first position at or after `j` where `c` occurs in `s`.
pub open spec fn find_at(s: Seq<char>, j: int, c: char) -> Option<int>
    decreases s.len() - j,
{
    if j < 0 || j >= s.len() {
        None
    } else if s[j] == c {
        Some(j)
    } else {
        find_at(s, j + 1, c)
    }
}

/// Where `find_at` finds `c`, it names the first occurrence at or after `j`.
pub proof fn lemma_find_at(s: Seq<char>, j: int, c: char)
    requires
        0 <= j,
    ensures
        match find_at(s, j, c) {
            Some(k) => j <= k < s.len() && s[k] == c && forall|m: int| j <= m < k ==> s[m] != c,
            None => forall|m: int| j <= m < s.len() ==> s[m] != c,
        },
    decreases s.len() - j,
{
    if j < 0 || j >= s.len() {
    } else if s[j] == c {
    } else {
        lemma_find_at(s, j + 1, c);
    }
}

/// Whether a `${name}` reference starts at `pos`: the opener `${` followed,
/// somewhere, by a closing `}`.
pub open spec fn token_at(s: Seq<char>, pos: int) -> bool {
    &&& 0 <= pos
    &&& pos + 1 < s.len()
    &&& s[pos] == '$'
    &&& s[pos + 1] == '{'
    &&& find_at(s, pos + 2, c_close()) is Some
}

/// The closing brace character.
pub open spec fn c_close() -> char {
    '}'
}

/// The first entry at or after `i` whose name is `name`.
pub open spec fn lookup_name(names: Seq<Seq<char>>, name: Seq<char>, i: int) -> Option<int>
    decreases names.len() - i,
{
    if i < 0 || i >= names.len() {
        None
    } else if names[i] == name {
        Some(i)
    } else {
        lookup_name(names, name, i + 1)
    }
}

/// What scanning `s` from `pos` produces: the expanded text and the memo
/// states after every resolution the scan triggered. A reference whose name
/// is found in the table is substituted by that entry's evaluation when the
/// recursion budget `depth` allows, and is otherwise kept literal, as is a
/// reference whose name is unknown.
pub open spec fn eval_str(
    names: Seq<Seq<char>>,
    exprs: Seq<Seq<char>>,
    memos: Seq<Option<Seq<char>>>,
    s: Seq<char>,
    pos: int,
    depth: nat,
) -> (Seq<char>, Seq<Option<Seq<char>>>)
    decreases depth, 0int, s.len() - pos,
{
    if pos < 0 || pos >= s.len() {
        (Seq::empty(), memos)
    } else if token_at(s, pos) {
        let close = find_at(s, pos + 2, c_close())->0;
        proof {
            lemma_find_at(s, pos + 2, c_close());
        }
        let name = s.subrange(pos + 2, close);
        let j_opt = lookup_name(names, name, 0);
        if j_opt is Some && depth > 0 {
            let r1 = eval_idx(names, exprs, memos, j_opt->0, (depth - 1) as nat);
            let r2 = eval_str(names, exprs, r1.1, s, close + 1, depth);
            (r1.0 + r2.0, r2.1)
        } else {
            let r2 = eval_str(names, exprs, memos, s, close + 1, depth);
            (s.subrange(pos, close + 1) + r2.0, r2.1)
        }
    } else {
        let r2 = eval_str(names, exprs, memos, s, pos + 1, depth);
        (seq![s[pos]] + r2.0, r2.1)
    }
}

/// What resolving the entry at `j` produces: its memoized text when one is
/// present, and otherwise the expansion of its raw text, which is then
/// memoized.
pub open spec fn eval_idx(
    names: Seq<Seq<char>>,
    exprs: Seq<Seq<char>>,
    memos: Seq<Option<Seq<char>>>,
    j: int,
    depth: nat,
) -> (Seq<char>, Seq<Option<Seq<char>>>)
    decreases depth, 1int, 0int,
{
    if j < 0 || j >= exprs.len() || j >= memos.len() {
        (Seq::empty(), memos)
    } else if memos[j] is Some {
        (memos[j]->0, memos)
    } else {
        let r = eval_str(names, exprs, memos, exprs[j], 0, depth);
        (r.0, r.1.update(j, Some(r.0)))
    }
}

/// Scanning never changes the number of table entries.
pub proof fn lemma_eval_str_len(
    names: Seq<Seq<char>>,
    exprs: Seq<Seq<char>>,
    memos: Seq<Option<Seq<char>>>,
    s: Seq<char>,
    pos: int,
    depth: nat,
)
    ensures
        eval_str(names, exprs, memos, s, pos, depth).1.len() == memos.len(),
    decreases depth, 0int, s.len() - pos,
{
    if pos < 0 || pos >= s.len() {
    } else if token_at(s, pos) {
        let close = find_at(s, pos + 2, c_close())->0;
        lemma_find_at(s, pos + 2, c_close());
        let name = s.subrange(pos + 2, close);
        let j_opt = lookup_name(names, name, 0);
        if j_opt is Some && depth > 0 {
            lemma_eval_idx_len(names, exprs, memos, j_opt->0, (depth - 1) as nat);
            let r1 = eval_idx(names, exprs, memos, j_opt->0, (depth - 1) as nat);
            lemma_eval_str_len(names, exprs, r1.1, s, close + 1, depth);
        } else {
            lemma_eval_str_len(names, exprs, memos, s, close + 1, depth);
        }
    } else {
        lemma_eval_str_len(names, exprs, memos, s, pos + 1, depth);
    }
}

/// Resolution never changes the number of table entries.
pub proof fn lemma_eval_idx_len(
    names: Seq<Seq<char>>,
    exprs: Seq<Seq<char>>,
    memos: Seq<Option<Seq<char>>>,
    j: int,
    depth: nat,
)
    ensures
        eval_idx(names, exprs, memos, j, depth).1.len() == memos.len(),
    decreases depth, 1int, 0int,
{
    if j < 0 || j >= exprs.len() || j >= memos.len() {
    } else if memos[j] is Some {
    } else {
        lemma_eval_str_len(names, exprs, memos, exprs[j], 0, depth);
    }
}

/// Compares two strings by characters.
pub fn str_eq(a: &str, b: &str) -> (r: bool)
    ensures
        r == (a@ == b@),
{
    let n = a.unicode_len();
    let m = b.unicode_len();
    if n != m {
        return false;
    }
    let mut i: usize = 0;
    while i < n
        invariant
            n == a@.len(),
            n == b@.len(),
            i <= n,
            forall|k: int| 0 <= k < i ==> a@[k] == b@[k],
        decreases n - i,
    {
        if a.get_char(i) != b.get_char(i) {
            return false;
        }
        i = i + 1;
    }
    assert(a@ =~= b@);
    true
}

/// The first position at or after `start` where `c` occurs in `s`.
pub fn find_char_at(s: &str, start: usize, c: char) -> (r: Option<usize>)
    requires
        start <= s@.len(),
    ensures
        match r {
            Some(k) => start <= k < s@.len() && find_at(s@, start as int, c) == Some(k as int),
            None => find_at(s@, start as int, c) is None,
        },
{
    let n = s.unicode_len();
    let mut j = start;
    while j < n
        invariant
            n == s@.len(),
            start <= j <= n,
            find_at(s@, start as int, c) == find_at(s@, j as int, c),
        decreases n - j,
    {
        if s.get_char(j) == c {
            return Some(j);
        }
        j = j + 1;
    }
    None
}

/// The first table entry with the given name.
fn lookup_vars(vars: &Vec<Expression>, name: &str) -> (r: Option<usize>)
    ensures
        match r {
            Some(j) => j < vars@.len() && lookup_name(names_of(vars@), name@, 0) == Some(
                j as int,
            ),
            None => lookup_name(names_of(vars@), name@, 0) is None,
        },
{
    let mut i: usize = 0;
    while i < vars.len()
        invariant
            i <= vars@.len(),
            lookup_name(names_of(vars@), name@, 0) == lookup_name(names_of(vars@), name@, i as int),
        decreases vars@.len() - i,
    {
        if str_eq(vars[i].name.as_str(), name) {
            return Some(i);
        }
        i = i + 1;
    }
    None
}

/// Expands `${name}` references in `s` against the scope `vars`, resolving
/// and memoizing referenced entries on demand, spending one unit of `depth`
/// per nested resolution.
fn resolve_str(vars: &mut Vec<Expression>, s: &str, depth: usize) -> (r: String)
    ensures
        final(vars)@.len() == old(vars)@.len(),
        names_of(final(vars)@) == names_of(old(vars)@),
        exprs_of(final(vars)@) == exprs_of(old(vars)@),
        r@ == eval_str(
            names_of(old(vars)@),
            exprs_of(old(vars)@),
            memos_of(old(vars)@),
            s@,
            0,
            depth as nat,
        ).0,
        memos_of(final(vars)@) == eval_str(
            names_of(old(vars)@),
            exprs_of(old(vars)@),
            memos_of(old(vars)@),
            s@,
            0,
            depth as nat,
        ).1,
    decreases depth, 0int,
{
    let ghost names0 = names_of(vars@);
    let ghost exprs0 = exprs_of(vars@);
    let ghost memos0 = memos_of(vars@);
    let ghost d = depth as nat;
    let n = s.unicode_len();
    let mut out = String::new();
    let mut i: usize = 0;
    assert(out@ + eval_str(names0, exprs0, memos0, s@, 0, d).0 =~= eval_str(
        names0,
        exprs0,
        memos0,
        s@,
        0,
        d,
    ).0);
    while i < n
        invariant
            n == s@.len(),
            i <= n,
            vars@.len() == old(vars)@.len(),
            names_of(vars@) == names0,
            exprs_of(vars@) == exprs0,
            names0 == names_of(old(vars)@),
            exprs0 == exprs_of(old(vars)@),
            memos0 == memos_of(old(vars)@),
            d == depth as nat,
            eval_str(names0, exprs0, memos0, s@, 0, d).0 == out@ + eval_str(
                names0,
                exprs0,
                memos_of(vars@),
                s@,
                i as int,
                d,
            ).0,
            eval_str(names0, exprs0, memos0, s@, 0, d).1 == eval_str(
                names0,
                exprs0,
                memos_of(vars@),
                s@,
                i as int,
                d,
            ).1,
        decreases n - i,
    {
        let ghost m_cur = memos_of(vars@);
        let mut close_opt: Option<usize> = None;
        if s.get_char(i) == '$' && i + 1 < n {
            if s.get_char(i + 1) == '{' {
                close_opt = find_char_at(s, i + 2, '}');
            }
        }
        match close_opt {
            Some(close) => {
                proof {
                    lemma_find_at(s@, i + 2 as int, c_close());
                }
                assert(token_at(s@, i as int));
                let name_s = s.substring_char(i + 2, close);
                let j_opt = lookup_vars(vars, name_s);
                let use_ref: Option<usize> = if depth > 0 {
                    j_opt
                } else {
                    None
                };
                let ghost spec_j = lookup_name(names0, s@.subrange(i + 2, close as int), 0);
                match use_ref {
                    Some(j) => {
                        assert(spec_j is Some && d > 0);
                        let v = resolve_idx(vars, j, depth - 1);
                        out.append(v.as_str());
                        proof {
                            let r1 = eval_idx(names0, exprs0, m_cur, spec_j->0, (d - 1) as nat);
                            let r2 = eval_str(names0, exprs0, r1.1, s@, close + 1, d);
                            assert(eval_str(names0, exprs0, m_cur, s@, i as int, d) == (
                            r1.0 + r2.0,
                            r2.1,
                            ));
                        }
                        i = close + 1;
                    },
                    None => {
                        assert(!(spec_j is Some && d > 0));
                        let lit = s.substring_char(i, close + 1);
                        out.append(lit);
                        proof {
                            let r2 = eval_str(names0, exprs0, m_cur, s@, close + 1, d);
                            assert(eval_str(names0, exprs0, m_cur, s@, i as int, d) == (
                            s@.subrange(i as int, close + 1) + r2.0,
                            r2.1,
                            ));
                        }
                        i = close + 1;
                    },
                }
            },
            None => {
                assert(!token_at(s@, i as int));
                let lit = s.substring_char(i, i + 1);
                out.append(lit);
                proof {
                    let r2 = eval_str(names0, exprs0, m_cur, s@, i + 1 as int, d);
                    assert(eval_str(names0, exprs0, m_cur, s@, i as int, d) == (
                    seq![s@[i as int]] + r2.0,
                    r2.1,
                    ));
                    assert(lit@ =~= seq![s@[i as int]]);
                }
                i = i + 1;
            },
        }
        proof {
            assert(eval_str(names0, exprs0, memos0, s@, 0, d).0 =~= out@ + eval_str(
                names0,
                exprs0,
                memos_of(vars@),
                s@,
                i as int,
                d,
            ).0);
        }
    }
    assert(eval_str(names0, exprs0, memos_of(vars@), s@, i as int, d).0 =~= Seq::<char>::empty());
    assert(eval_str(names0, exprs0, memos0, s@, 0, d).0 =~= out@);
    out
}

/// Resolves the scope entry at `j`: returns the memoized text when present,
/// and otherwise expands the entry's raw text and memoizes the result.
fn resolve_idx(vars: &mut Vec<Expression>, j: usize, depth: usize) -> (r: String)
    requires
        j < old(vars)@.len(),
    ensures
        final(vars)@.len() == old(vars)@.len(),
        names_of(final(vars)@) == names_of(old(vars)@),
        exprs_of(final(vars)@) == exprs_of(old(vars)@),
        r@ == eval_idx(
            names_of(old(vars)@),
            exprs_of(old(vars)@),
            memos_of(old(vars)@),
            j as int,
            depth as nat,
        ).0,
        memos_of(final(vars)@) == eval_idx(
            names_of(old(vars)@),
            exprs_of(old(vars)@),
            memos_of(old(vars)@),
            j as int,
            depth as nat,
        ).1,
    decreases depth, 1int,
{
    let memo: Option<String> = match &vars[j].resolved {
        Some(v) => Some(v.clone()),
        None => None,
    };
    match memo {
        Some(v) => {
            assert(memos_of(vars@)[j as int] is Some);
            v
        },
        None => {
            assert(memos_of(vars@)[j as int] is None);
            let expr = vars[j].expr.clone();
            let r = resolve_str(vars, expr.as_str(), depth);
            let name2 = vars[j].name.clone();
            let expr2 = vars[j].expr.clone();
            let rc = r.clone();
            let ghost m1 = memos_of(vars@);
            vars.set(j, Expression { name: name2, expr: expr2, resolved: Some(rc) });
            proof {
                assert(names_of(vars@) =~= names_of(old(vars)@));
                assert(exprs_of(vars@) =~= exprs_of(old(vars)@));
                assert(memos_of(vars@) =~= m1.update(j as int, Some(r@)));
            }
            r
        },
    }
}

/// Law: resolving the same entry twice returns identical text both times,
/// and the second resolution changes no memo: the first resolution leaves
/// the entry's own memo holding exactly the text it returned, so the
/// second is answered from the memo alone, whatever its recursion budget.
pub proof fn lemma_resolve_idempotent(
    names: Seq<Seq<char>>,
    exprs: Seq<Seq<char>>,
    memos: Seq<Option<Seq<char>>>,
    j: int,
    d1: nat,
    d2: nat,
)
    requires
        0 <= j < exprs.len(),
        j < memos.len(),
    ensures
        ({
            let first = eval_idx(names, exprs, memos, j, d1);
            let second = eval_idx(names, exprs, first.1, j, d2);
            second.0 == first.0 && second.1 == first.1
        }),
{
    if memos[j] is Some {
    } else {
        lemma_eval_str_len(names, exprs, memos, exprs[j], 0, d1);
    }
}

/// Whether every `${name}` reference in `s` names an entry absent from the
/// table.
pub open spec fn refs_unbound(names: Seq<Seq<char>>, s: Seq<char>) -> bool {
    forall|p: int|
        #[trigger] token_at(s, p) ==> lookup_name(
            names,
            s.subrange(p + 2, find_at(s, p + 2, c_close())->0),
            0,
        ) is None
}

/// Scanning text whose references are all unknown reproduces the text
/// unchanged and writes no memo.
pub proof fn lemma_eval_str_unbound(
    names: Seq<Seq<char>>,
    exprs: Seq<Seq<char>>,
    memos: Seq<Option<Seq<char>>>,
    s: Seq<char>,
    pos: int,
    depth: nat,
)
    requires
        refs_unbound(names, s),
        0 <= pos <= s.len(),
    ensures
        eval_str(names, exprs, memos, s, pos, depth).0 == s.subrange(pos, s.len() as int),
        eval_str(names, exprs, memos, s, pos, depth).1 == memos,
    decreases s.len() - pos,
{
    if pos >= s.len() {
        assert(s.subrange(pos, s.len() as int) =~= Seq::<char>::empty());
    } else if token_at(s, pos) {
        lemma_find_at(s, pos + 2, c_close());
        let close = find_at(s, pos + 2, c_close())->0;
        assert(lookup_name(names, s.subrange(pos + 2, close), 0) is None);
        lemma_eval_str_unbound(names, exprs, memos, s, close + 1, depth);
        assert(s.subrange(pos, close + 1) + s.subrange(close + 1, s.len() as int) =~= s.subrange(
            pos,
            s.len() as int,
        ));
    } else {
        lemma_eval_str_unbound(names, exprs, memos, s, pos + 1, depth);
        assert(seq![s[pos]] + s.subrange(pos + 1, s.len() as int) =~= s.subrange(
            pos,
            s.len() as int,
        ));
    }
}

/// Law: unknown-reference tolerance. An unmemoized entry whose raw text
/// references only names absent from the table resolves to its raw text
/// unchanged, and the only memo written is its own.
pub proof fn lemma_unknown_reference_tolerance(
    names: Seq<Seq<char>>,
    exprs: Seq<Seq<char>>,
    memos: Seq<Option<Seq<char>>>,
    j: int,
    depth: nat,
)
    requires
        0 <= j < exprs.len(),
        j < memos.len(),
        memos[j] is None,
        refs_unbound(names, exprs[j]),
    ensures
        eval_idx(names, exprs, memos, j, depth).0 == exprs[j],
        eval_idx(names, exprs, memos, j, depth).1 == memos.update(j, Some(exprs[j])),
{
    lemma_eval_str_unbound(names, exprs, memos, exprs[j], 0, depth);
    assert(exprs[j].subrange(0, exprs[j].len() as int) =~= exprs[j]);
}

/// Law: cycle safety. In a two-entry table where `a` is `${b}` and `b` is
/// `${a}`, resolving `a` with the budget the public `resolve` uses for a
/// two-entry table terminates (the evaluation functions are total), and
/// both entries end memoized to the literal marker `${b}` left where the
/// cycle was cut — an unresolved token, not a crash.
pub proof fn lemma_cycle_two_is_literal()
    ensures
        ({
            let names = seq!["a"@, "b"@];
            let exprs = seq!["${b}"@, "${a}"@];
            let memos = seq![None::<Seq<char>>, None::<Seq<char>>];
            let first = eval_idx(names, exprs, memos, 0, 2);
            first.0 == "${b}"@ && first.1 == seq![Some("${b}"@), Some("${b}"@)]
        }),
{
    reveal_strlit("a");
    reveal_strlit("b");
    reveal_strlit("${a}");
    reveal_strlit("${b}");
    let na = "a"@;
    let nb = "b"@;
    let ea = "${b}"@;
    let eb = "${a}"@;
    let names = seq![na, nb];
    let exprs = seq![ea, eb];
    let m0 = seq![None::<Seq<char>>, None::<Seq<char>>];
    assert(na != nb) by {
        if na == nb {
            assert(na[0] == nb[0]);
        }
    }
    // The token shape of both raw texts.
    assert(find_at(ea, 3, c_close()) == Some(3int));
    assert(find_at(ea, 2, c_close()) == Some(3int));
    assert(token_at(ea, 0));
    assert(ea.subrange(2, 3) =~= nb);
    assert(find_at(eb, 3, c_close()) == Some(3int));
    assert(find_at(eb, 2, c_close()) == Some(3int));
    assert(token_at(eb, 0));
    assert(eb.subrange(2, 3) =~= na);
    // Name lookups.
    assert(lookup_name(names, nb, 2) is None);
    assert(lookup_name(names, nb, 1) == Some(1int));
    assert(lookup_name(names, nb, 0) == Some(1int));
    assert(lookup_name(names, na, 0) == Some(0int));
    // Depth 0: the scan of `${b}` cuts the cycle and keeps the literal.
    assert(eval_str(names, exprs, m0, ea, 4, 0) == (Seq::<char>::empty(), m0));
    assert(ea.subrange(0, 4) =~= ea);
    assert(eval_str(names, exprs, m0, ea, 0, 0).0 =~= ea);
    assert(eval_str(names, exprs, m0, ea, 0, 0).1 == m0);
    let m_a = m0.update(0int, Some(ea));
    assert(eval_idx(names, exprs, m0, 0, 0) == (ea, m_a));
    // Depth 1: resolving `b` substitutes the cut marker.
    assert(eval_str(names, exprs, m_a, eb, 4, 1) == (Seq::<char>::empty(), m_a));
    assert(eval_str(names, exprs, m0, eb, 0, 1).0 =~= ea);
    assert(eval_str(names, exprs, m0, eb, 0, 1).1 == m_a);
    let m_ab = m_a.update(1int, Some(ea));
    assert(eval_idx(names, exprs, m0, 1, 1) == (ea, m_ab));
    // Depth 2: resolving `a` substitutes `b`'s text and memoizes.
    assert(eval_str(names, exprs, m_ab, ea, 4, 2) == (Seq::<char>::empty(), m_ab));
    assert(eval_str(names, exprs, m0, ea, 0, 2).0 =~= ea);
    assert(eval_str(names, exprs, m0, ea, 0, 2).1 == m_ab);
    let m_final = m_ab.update(0int, Some(ea));
    assert(eval_idx(names, exprs, m0, 0, 2) == (ea, m_final));
    assert(m_final =~= seq![Some(ea), Some(ea)]);
}

/// Resolves an expression against the scope `vars`, writing the computed
/// text into the expression's own memo exactly once: a second resolution
/// of the same instance returns the memoized text without re-scanning the
/// raw text and without touching the scope. The expression itself need not
/// be a scope entry — commands and environment entries are resolved this
/// way — while the references inside it are looked up, and memoized, in
/// the scope.
pub fn resolve_expression(vars: &mut Vec<Expression>, expression: &mut Expression) -> (r: String)
    ensures
        final(expression).name == old(expression).name,
        final(expression).expr == old(expression).expr,
        final(expression).resolved == Some(r),
        final(vars)@.len() == old(vars)@.len(),
        names_of(final(vars)@) == names_of(old(vars)@),
        exprs_of(final(vars)@) == exprs_of(old(vars)@),
        old(expression).resolved matches Some(v) ==> r == v && memos_of(final(vars)@)
            == memos_of(old(vars)@),
        old(expression).resolved is None ==> r@ == eval_str(
            names_of(old(vars)@),
            exprs_of(old(vars)@),
            memos_of(old(vars)@),
            old(expression).expr@,
            0,
            old(vars)@.len() as nat,
        ).0 && memos_of(final(vars)@) == eval_str(
            names_of(old(vars)@),
            exprs_of(old(vars)@),
            memos_of(old(vars)@),
            old(expression).expr@,
            0,
            old(vars)@.len() as nat,
        ).1,
{
    match &expression.resolved {
        Some(v) => {
            return v.clone();
        },
        None => {},
    }
    let depth = vars.len();
    let expr = expression.expr.clone();
    let r = resolve_str(vars, expr.as_str(), depth);
    expression.resolved = Some(r.clone());
    r
}

/// Resolves the expression at `index` within the scope `vars`, memoizing
/// every resolution it triggers. The recursion budget is the table's size:
/// ample for any acyclic chain of references, while a cyclic reference is
/// cut off and left as literal `${name}` text.
pub fn resolve(vars: &mut Vec<Expression>, index: usize) -> (r: String)
    requires
        index < old(vars)@.len(),
    ensures
        final(vars)@.len() == old(vars)@.len(),
        names_of(final(vars)@) == names_of(old(vars)@),
        exprs_of(final(vars)@) == exprs_of(old(vars)@),
        r@ == eval_idx(
            names_of(old(vars)@),
            exprs_of(old(vars)@),
            memos_of(old(vars)@),
            index as int,
            old(vars)@.len() as nat,
        ).0,
        memos_of(final(vars)@) == eval_idx(
            names_of(old(vars)@),
            exprs_of(old(vars)@),
            memos_of(old(vars)@),
            index as int,
            old(vars)@.len() as nat,
        ).1,
{
    let depth = vars.len();
    resolve_idx(vars, index, depth)
}

} // verus!
