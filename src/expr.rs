//! Expressions: the tree, its mathematical model, and its canonical text.
use vstd::prelude::*;
use crate::env::chars_of;

verus! {

broadcast use vstd::std_specs::vec::group_vec_axioms, vstd::seq::group_seq_axioms;

/// A parsed expression: an atom or a parenthesised list.
#[derive(Debug, PartialEq, Eq)]
pub enum Expr {
    Atom(String),
    List(Vec<Expr>),
}

/// The mathematical model of an expression.
pub enum ExprV {
    Atom(Seq<char>),
    List(Seq<ExprV>),
}

impl View for Expr {
    type V = ExprV;

    open spec fn view(&self) -> ExprV
        decreases self,
    {
        match self {
            Expr::Atom(s) => ExprV::Atom(s@),
            Expr::List(v) => ExprV::List(
                Seq::new(v.len() as nat, |i: int| if 0 <= i < v.len() { v[i].view() } else { ExprV::List(seq![]) }),
            ),
        }
    }
}

/// The models of a sequence of expressions.
pub open spec fn views(v: Seq<Expr>) -> Seq<ExprV> {
    Seq::new(v.len(), |i: int| v[i]@)
}

pub proof fn lemma_list_view(v: Vec<Expr>)
    ensures
        Expr::List(v)@ == ExprV::List(views(v@)),
{
    let e = Expr::List(v);
    assert(e@->List_0 =~= views(v@));
}

/// Canonical text: atoms verbatim, lists as space-joined elements in parentheses.
pub open spec fn render(e: ExprV) -> Seq<char>
    decreases e, 0nat,
{
    match e {
        ExprV::Atom(s) => s,
        ExprV::List(items) => seq!['('] + join(items, items.len()) + seq![')'],
    }
}

/// The renderings of the first `n` items, separated by single spaces.
pub open spec fn join(items: Seq<ExprV>, n: nat) -> Seq<char>
    decreases items, n,
{
    if n == 0 || n > items.len() {
        seq![]
    } else if n == 1 {
        render(items[0])
    } else {
        join(items, (n - 1) as nat) + seq![' '] + render(items[n - 1])
    }
}

impl Expr {
    /// A copy with the same model.
    pub fn duplicate(&self) -> (r: Expr)
        ensures
            r@ == self@,
        decreases self,
    {
        match self {
            Expr::Atom(s) => Expr::Atom(s.clone()),
            Expr::List(v) => {
                let mut out: Vec<Expr> = Vec::new();
                let mut i: usize = 0;
                while i < v.len()
                    invariant
                        i <= v.len(),
                        views(out@) =~= views(v@).subrange(0, i as int),
                        *self == Expr::List(*v),
                    decreases v.len() - i,
                {
                    proof {
                        assert(decreases_to!(*self => self->List_0));
                        assert(decreases_to!(*v => v[i as int]));
                        assert(decreases_to!(*self => v[i as int]));
                    }
                    let c = v[i].duplicate();
                    let ghost prev = out@;
                    out.push(c);
                    proof {
                        assert(views(out@) =~= views(prev).push(v[i as int]@));
                    }
                    i = i + 1;
                }
                proof {
                    assert(views(out@) =~= views(v@));
                    lemma_list_view(out);
                    lemma_list_view(*v);
                }
                Expr::List(out)
            }
        }
    }

    /// The canonical text of this expression.
    pub fn to_text(&self) -> (r: String)
        ensures
            r@ == render(self@),
        decreases self,
    {
        match self {
            Expr::Atom(s) => s.clone(),
            Expr::List(v) => {
                proof {
                    reveal_strlit("(");
                    reveal_strlit(")");
                    reveal_strlit(" ");
                    lemma_list_view(*v);
                }
                let ghost items = views(v@);
                let mut out = String::from_str("(");
                let mut i: usize = 0;
                while i < v.len()
                    invariant
                        i <= v.len(),
                        items == views(v@),
                        out@ == seq!['('] + join(items, i as nat),
                        *self == Expr::List(*v),
                    decreases v.len() - i,
                {
                    proof {
                        assert(decreases_to!(*self => self->List_0));
                        assert(decreases_to!(*v => v[i as int]));
                        assert(decreases_to!(*self => v[i as int]));
                    }
                    let ghost before = out@;
                    proof {
                        reveal_strlit(" ");
                    }
                    if i > 0 {
                        out.append(" ");
                    }
                    let t = v[i].to_text();
                    out.append(t.as_str());
                    proof {
                        assert(items[i as int] == v[i as int]@);
                        if i == 0 {
                            assert(out@ =~= seq!['('] + join(items, 1));
                        } else {
                            assert(join(items, (i + 1) as nat) == join(items, i as nat) + seq![' '] + render(items[i as int]));
                            assert(out@ =~= seq!['('] + join(items, (i + 1) as nat));
                        }
                    }
                    i = i + 1;
                }
                out.append(")");
                out
            }
        }
    }
}

/// Why text is not an expression.
#[derive(Debug, Clone, Copy, PartialEq, Eq)]
pub enum ParseError {
    /// An atom was expected and no atom character was found.
    EmptyAtom,
    /// A list was still open at the end of the text.
    UnclosedList,
    /// Text remained after the expression.
    TrailingInput,
}

impl ParseError {
    /// A line describing the error.
    pub fn message(&self) -> String {
        match self {
            ParseError::EmptyAtom => String::from_str("empty atom"),
            ParseError::UnclosedList => String::from_str("expected ')'"),
            ParseError::TrailingInput => String::from_str("unexpected text after the expression"),
        }
    }
}

/// Unicode white space.
pub open spec fn is_space(c: char) -> bool {
    let u = c as u32;
    (9 <= u <= 13) || u == 32 || u == 0x85 || u == 0xA0 || u == 0x1680 || (0x2000 <= u <= 0x200A) || u == 0x2028
        || u == 0x2029 || u == 0x202F || u == 0x205F || u == 0x3000
}

/// A character that may stand in an atom: printable ASCII other than `)`.
pub open spec fn is_atom_char(c: char) -> bool {
    let u = c as u32;
    33 <= u <= 126 && c != ')'
}

/// The first position from `i` on that is not white space.
pub open spec fn skip_space(s: Seq<char>, i: int) -> int
    decreases s.len() - i,
{
    if 0 <= i < s.len() && is_space(s[i]) {
        skip_space(s, i + 1)
    } else {
        i
    }
}

/// The first position from `i` on that is not an atom character.
pub open spec fn atom_end(s: Seq<char>, i: int) -> int
    decreases s.len() - i,
{
    if 0 <= i < s.len() && is_atom_char(s[i]) {
        atom_end(s, i + 1)
    } else {
        i
    }
}

/// The expression that starts at `i`, white space around it skipped, and the
/// position after it.
pub open spec fn parse_at(s: Seq<char>, i: int) -> Result<(ExprV, int), ParseError>
    decreases s.len() - i, 0nat,
{
    let j = skip_space(s, i);
    if i <= j < s.len() && s[j] == '(' {
        parse_items(s, j + 1, seq![])
    } else {
        let k = atom_end(s, j);
        if k == j {
            Err(ParseError::EmptyAtom)
        } else {
            Ok((ExprV::Atom(s.subrange(j, k)), skip_space(s, k)))
        }
    }
}

/// The rest of a list whose items so far are `acc`, from `i` to its `)`
/// and the white space after it.
pub open spec fn parse_items(s: Seq<char>, i: int, acc: Seq<ExprV>) -> Result<(ExprV, int), ParseError>
    decreases s.len() - i, 1nat,
{
    if i < 0 || i >= s.len() {
        Err(ParseError::UnclosedList)
    } else if s[i] == ')' {
        Ok((ExprV::List(acc), skip_space(s, i + 1)))
    } else {
        match parse_at(s, i) {
            Err(x) => Err(x),
            Ok((e, k)) => if k <= i || k > s.len() { Err(ParseError::UnclosedList) } else { parse_items(s, k, acc.push(e)) },
        }
    }
}

/// The expression that the whole text spells.
pub open spec fn parse_text(s: Seq<char>) -> Result<ExprV, ParseError> {
    match parse_at(s, 0) {
        Err(x) => Err(x),
        Ok((e, k)) => if k == s.len() { Ok(e) } else { Err(ParseError::TrailingInput) },
    }
}

/// Whether `c` is Unicode white space.
pub fn char_is_space(c: char) -> (r: bool)
    ensures
        r == is_space(c),
{
    let u = c as u32;
    (9 <= u && u <= 13) || u == 32 || u == 0x85 || u == 0xA0 || u == 0x1680 || (0x2000 <= u && u <= 0x200A)
        || u == 0x2028 || u == 0x2029 || u == 0x202F || u == 0x205F || u == 0x3000
}

fn skip_spaces(s: &Vec<char>, i: usize) -> (r: usize)
    requires
        i <= s.len(),
    ensures
        r == skip_space(s@, i as int),
        i <= r <= s.len(),
{
    let mut j = i;
    while j < s.len() && char_is_space(s[j])
        invariant
            i <= j <= s.len(),
            skip_space(s@, i as int) == skip_space(s@, j as int),
        decreases s.len() - j,
    {
        j = j + 1;
    }
    j
}

fn parse_expression(text: &str, s: &Vec<char>, i: usize) -> (r: Result<(Expr, usize), ParseError>)
    requires
        i <= s.len(),
        s@ == text@,
    ensures
        match r {
            Ok((e, k)) => parse_at(s@, i as int) == Ok::<(ExprV, int), ParseError>((e@, k as int)) && i < k <= s.len(),
            Err(x) => parse_at(s@, i as int) == Err::<(ExprV, int), ParseError>(x),
        },
    decreases s.len() - i, 0nat,
{
    let j = skip_spaces(s, i);
    if j < s.len() && s[j] == '(' {
        let acc: Vec<Expr> = Vec::new();
        assert(views(acc@) =~= seq![]);
        parse_list(text, s, j + 1, acc)
    } else {
        parse_atom(text, s, j)
    }
}

fn parse_atom(text: &str, s: &Vec<char>, j: usize) -> (r: Result<(Expr, usize), ParseError>)
    requires
        j <= s.len(),
        s@ == text@,
    ensures
        match r {
            Ok((e, k)) => k > j && k <= s.len() && ({
                let a = atom_end(s@, j as int);
                a > j && e@ == ExprV::Atom(s@.subrange(j as int, a)) && k == skip_space(s@, a)
            }),
            Err(x) => atom_end(s@, j as int) == j && x == ParseError::EmptyAtom,
        },
{
    let mut k = j;
    while k < s.len() && 33 <= s[k] as u32 && s[k] as u32 <= 126 && s[k] != ')'
        invariant
            j <= k <= s.len(),
            atom_end(s@, j as int) == atom_end(s@, k as int),
        decreases s.len() - k,
    {
        k = k + 1;
    }
    if k == j {
        return Err(ParseError::EmptyAtom);
    }
    let atom = text.substring_char(j, k).to_owned();
    let after = skip_spaces(s, k);
    Ok((Expr::Atom(atom), after))
}

fn parse_list(text: &str, s: &Vec<char>, i: usize, acc: Vec<Expr>) -> (r: Result<(Expr, usize), ParseError>)
    requires
        1 <= i <= s.len(),
        s@ == text@,
    ensures
        match r {
            Ok((e, k)) => parse_items(s@, i as int, views(acc@)) == Ok::<(ExprV, int), ParseError>((e@, k as int))
                && i < k <= s.len(),
            Err(x) => parse_items(s@, i as int, views(acc@)) == Err::<(ExprV, int), ParseError>(x),
        },
    decreases s.len() - i, 1nat,
{
    if i >= s.len() {
        return Err(ParseError::UnclosedList);
    }
    if s[i] == ')' {
        let after = skip_spaces(s, i + 1);
        proof {
            lemma_list_view(acc);
        }
        return Ok((Expr::List(acc), after));
    }
    match parse_expression(text, s, i) {
        Err(x) => Err(x),
        Ok((e, k)) => {
            let mut acc = acc;
            let ghost prev = acc@;
            let ghost ev = e@;
            acc.push(e);
            assert(views(acc@) =~= views(prev).push(ev));
            parse_list(text, s, k, acc)
        },
    }
}

impl Expr {
    /// Parses one expression that spans the whole text, white space around it
    /// allowed.
    pub fn parse(source: String) -> (r: Result<Expr, ParseError>)
        ensures
            match r {
                Ok(e) => parse_text(source@) == Ok::<ExprV, ParseError>(e@),
                Err(x) => parse_text(source@) == Err::<ExprV, ParseError>(x),
            },
    {
        let s = chars_of(source.as_str());
        match parse_expression(source.as_str(), &s, 0) {
            Err(x) => Err(x),
            Ok((e, k)) => {
                if k == s.len() {
                    Ok(e)
                } else {
                    Err(ParseError::TrailingInput)
                }
            },
        }
    }
}

} // verus!
