//! Parsing the canonical text of an expression gives the expression back.
use vstd::prelude::*;
use crate::expr::{
    atom_end, is_atom_char, is_space, join, parse_at, parse_items, parse_text, render, skip_space, ExprV,
    ParseError,
};

verus! {

broadcast use vstd::seq::group_seq_axioms;

/// An atom that the parser reads back as itself: not empty, made of atom
/// characters, and not starting with `(`.
pub open spec fn atom_ok(a: Seq<char>) -> bool {
    a.len() > 0 && a[0] != '(' && forall|k: int| 0 <= k < a.len() ==> is_atom_char(#[trigger] a[k])
}

/// Every atom in the expression is `atom_ok`.
pub open spec fn well_formed(e: ExprV) -> bool
    decreases e,
{
    match e {
        ExprV::Atom(a) => atom_ok(a),
        ExprV::List(items) => forall|k: int| 0 <= k < items.len() ==> well_formed(#[trigger] items[k]),
    }
}

proof fn lemma_render_start(e: ExprV)
    requires
        well_formed(e),
    ensures
        render(e).len() > 0,
        !is_space(render(e)[0]),
        render(e)[0] != ')',
{
    match e {
        ExprV::Atom(a) => {
            assert(is_atom_char(a[0]));
        },
        ExprV::List(items) => {},
    }
}

proof fn lemma_join_prefix(items: Seq<ExprV>, m: nat, n: nat)
    requires
        m <= n <= items.len(),
    ensures
        join(items, m).len() <= join(items, n).len(),
        join(items, n).subrange(0, join(items, m).len() as int) == join(items, m),
    decreases n,
{
    if m < n {
        lemma_join_prefix(items, m, (n - 1) as nat);
        let jm = join(items, m);
        let jp = join(items, (n - 1) as nat);
        if n >= 2 {
            assert(join(items, n) == jp + seq![' '] + render(items[n - 1]));
            assert(join(items, n).subrange(0, jp.len() as int) =~= jp);
            assert(join(items, n).subrange(0, jm.len() as int) =~= jp.subrange(0, jm.len() as int));
        } else {
            assert(join(items, n).subrange(0, 0) =~= jm);
        }
    } else {
        assert(join(items, n).subrange(0, join(items, n).len() as int) =~= join(items, n));
    }
}

proof fn lemma_atom_end(s: Seq<char>, i: int, end: int)
    requires
        0 <= i <= end <= s.len(),
        forall|k: int| i <= k < end ==> is_atom_char(#[trigger] s[k]),
        end == s.len() || !is_atom_char(s[end]),
    ensures
        atom_end(s, i) == end,
    decreases end - i,
{
    if i < end {
        lemma_atom_end(s, i + 1, end);
    }
}

proof fn lemma_parse_at(e: ExprV, s: Seq<char>, i: int)
    requires
        well_formed(e),
        0 <= i,
        i + render(e).len() <= s.len(),
        s.subrange(i, i + render(e).len()) == render(e),
        i + render(e).len() == s.len() || !is_atom_char(s[i + render(e).len()]),
    ensures
        parse_at(s, i) == Ok::<(ExprV, int), ParseError>((e, skip_space(s, i + render(e).len()))),
    decreases e, 1nat, 0nat,
{
    let r = render(e);
    lemma_render_start(e);
    assert(s[i] == r[0]);
    assert(skip_space(s, i) == i);
    match e {
        ExprV::Atom(a) => {
            assert forall|k: int| i <= k < i + a.len() implies is_atom_char(#[trigger] s[k]) by {
                assert(s[k] == a[k - i]);
            }
            lemma_atom_end(s, i, i + a.len());
        },
        ExprV::List(items) => {
            lemma_parse_items(e, s, i, 0);
            assert(items.subrange(0, 0) =~= seq![]);
        },
    }
}

proof fn lemma_parse_items(e: ExprV, s: Seq<char>, i: int, m: nat)
    requires
        e is List,
        well_formed(e),
        0 <= i,
        i + render(e).len() <= s.len(),
        s.subrange(i, i + render(e).len()) == render(e),
        m <= e->List_0.len(),
    ensures
        ({
            let items = e->List_0;
            let q = i + 1 + join(items, m).len() + (if 0 < m < items.len() { 1int } else { 0int });
            parse_items(s, q, items.subrange(0, m as int)) == Ok::<(ExprV, int), ParseError>(
                (e, skip_space(s, i + render(e).len())),
            )
        }),
    decreases e, 0nat, e->List_0.len() - m,
{
    let items = e->List_0;
    let n = items.len();
    let r = render(e);
    let jj = join(items, n);
    assert(r == seq!['('] + jj + seq![')']);
    lemma_join_prefix(items, m, n);
    let pm = i + 1 + join(items, m).len();
    if m == n {
        assert(s[pm] == r[1 + jj.len() as int]);
        assert(items.subrange(0, n as int) =~= items);
    } else {
        let em = items[m as int];
        let rm = render(em);
        assert(well_formed(em));
        lemma_join_prefix(items, m + 1, n);
        let sep: int = if m > 0 { 1 } else { 0 };
        if m > 0 {
            assert(join(items, m + 1) == join(items, m) + seq![' '] + rm);
        } else {
            assert(join(items, 1) == rm);
        }
        let q = pm + sep;
        assert(q + rm.len() <= i + 1 + join(items, m + 1).len());
        assert(join(items, m + 1).len() <= jj.len());
        assert forall|k: int| 0 <= k < rm.len() implies s.subrange(q, q + rm.len())[k] == #[trigger] rm[k] by {
            assert(s[q + k] == r[q + k - i]);
            assert(r[q + k - i] == jj[q + k - i - 1]);
            assert(jj[q + k - i - 1] == join(items, m + 1)[join(items, m).len() + sep + k]);
        }
        assert(s.subrange(q, q + rm.len()) =~= rm);
        let after = q + rm.len();
        assert(after == i + 1 + join(items, m + 1).len());
        if m + 1 < n {
            lemma_join_prefix(items, m + 2, n);
            let next = render(items[m + 1 as int]);
            assert(join(items, m + 2) == join(items, m + 1) + seq![' '] + next);
            assert(s[after] == r[after - i]);
            assert(r[after - i] == jj[after - i - 1]);
            assert(jj[after - i - 1] == join(items, m + 2)[join(items, m + 1).len() as int]);
            assert(s[after] == ' ');
            assert(well_formed(items[m + 1 as int]));
            lemma_render_start(items[m + 1 as int]);
            assert(s[after + 1] == r[after + 1 - i]);
            assert(r[after + 1 - i] == jj[after - i]);
            assert(jj[after - i] == join(items, m + 2)[join(items, m + 1).len() + 1 as int]);
            assert(s[after + 1] == next[0]);
            assert(skip_space(s, after + 1) == after + 1);
            assert(skip_space(s, after) == after + 1);
        } else {
            assert(s[after] == r[after - i]);
            assert(s[after] == ')');
            assert(skip_space(s, after) == after);
        }
        lemma_parse_at(em, s, q);
        lemma_render_start(em);
        assert(s[q] == rm[0]);
        lemma_parse_items(e, s, i, m + 1);
        assert(items.subrange(0, m as int).push(em) =~= items.subrange(0, m + 1 as int));
    }
}

/// Parsing the canonical text of a well-formed expression gives back that
/// expression.
pub proof fn law_parse_render(e: ExprV)
    requires
        well_formed(e),
    ensures
        parse_text(render(e)) == Ok::<ExprV, ParseError>(e),
{
    let s = render(e);
    assert(s.subrange(0, s.len() as int) =~= s);
    lemma_parse_at(e, s, 0);
}

} // verus!
