//! Values produced by evaluation, their models, and their text.
use vstd::prelude::*;
use crate::expr::{Expr, ExprV, render};

verus! {

/// The built-in procedures.
#[derive(Debug, Clone, Copy, PartialEq, Eq)]
pub enum Prim {
    Add,
    Sub,
    Mul,
    Leq,
}

/// A handle on one scope of a `Store`.
#[derive(Debug, Clone, Copy, PartialEq, Eq)]
pub struct Env {
    pub id: usize,
}

/// A procedure defined by `fn*`: its defining scope, parameter names and body.
#[derive(Debug)]
pub struct Closure {
    pub env: Env,
    pub params: Vec<String>,
    pub body: Expr,
}

/// Something that can be applied to arguments.
#[derive(Debug)]
pub enum Function {
    Primitive(Prim),
    Closure(Closure),
}

/// The result of evaluating an expression. The special-form markers only
/// ever come out of resolving a keyword and are never bound in a scope.
#[derive(Debug)]
pub enum Value {
    Nil,
    True,
    False,
    Def,
    Let,
    Do,
    If,
    Fn,
    Quote,
    Number(i64),
    Quoted(Expr),
    Function(Function),
}

/// The mathematical model of a value.
pub enum ValueV {
    Nil,
    True,
    False,
    Def,
    Let,
    Do,
    If,
    Fn,
    Quote,
    Number(int),
    Quoted(ExprV),
    Primitive(Prim),
    Closure { env: nat, params: Seq<Seq<char>>, body: ExprV },
}

/// The models of a sequence of strings.
pub open spec fn texts(v: Seq<String>) -> Seq<Seq<char>> {
    Seq::new(v.len(), |i: int| v[i]@)
}

impl View for Value {
    type V = ValueV;

    open spec fn view(&self) -> ValueV {
        match self {
            Value::Nil => ValueV::Nil,
            Value::True => ValueV::True,
            Value::False => ValueV::False,
            Value::Def => ValueV::Def,
            Value::Let => ValueV::Let,
            Value::Do => ValueV::Do,
            Value::If => ValueV::If,
            Value::Fn => ValueV::Fn,
            Value::Quote => ValueV::Quote,
            Value::Number(n) => ValueV::Number(*n as int),
            Value::Quoted(e) => ValueV::Quoted(e@),
            Value::Function(Function::Primitive(p)) => ValueV::Primitive(*p),
            Value::Function(Function::Closure(c)) => ValueV::Closure {
                env: c.env.id as nat,
                params: texts(c.params@),
                body: c.body@,
            },
        }
    }
}

/// Why an evaluation failed.
#[derive(Debug, PartialEq, Eq)]
pub enum EvalError {
    /// A name with no binding, or a head that cannot be applied (its text).
    UnknownSymbol(String),
    /// A special form or procedure got the wrong number of forms or arguments.
    Arity,
    /// A procedure got a non-number where a number is required.
    Type,
    /// A `let*` or `fn*` binding list of the wrong shape.
    MalformedBindings,
    /// An arithmetic result does not fit in a 64-bit signed integer.
    Overflow,
    /// Evaluation nested deeper than the depth it was given.
    DepthExceeded,
    /// No further scope can be created.
    StoreFull,
}

/// The mathematical model of an evaluation error.
pub enum EvalErrorV {
    UnknownSymbol(Seq<char>),
    Arity,
    Type,
    MalformedBindings,
    Overflow,
    DepthExceeded,
    StoreFull,
}

impl View for EvalError {
    type V = EvalErrorV;

    open spec fn view(&self) -> EvalErrorV {
        match self {
            EvalError::UnknownSymbol(s) => EvalErrorV::UnknownSymbol(s@),
            EvalError::Arity => EvalErrorV::Arity,
            EvalError::Type => EvalErrorV::Type,
            EvalError::MalformedBindings => EvalErrorV::MalformedBindings,
            EvalError::Overflow => EvalErrorV::Overflow,
            EvalError::DepthExceeded => EvalErrorV::DepthExceeded,
            EvalError::StoreFull => EvalErrorV::StoreFull,
        }
    }
}

/// The models of a sequence of values.
pub open spec fn value_views(v: Seq<Value>) -> Seq<ValueV> {
    Seq::new(v.len(), |i: int| v[i]@)
}

/// The model of an evaluation outcome.
pub open spec fn outcome(r: Result<Value, EvalError>) -> Result<ValueV, EvalErrorV> {
    match r {
        Ok(v) => Ok(v@),
        Err(e) => Err(e@),
    }
}

/// The character of a decimal digit.
pub open spec fn digit_char(d: nat) -> char {
    ((d + 48) as u8) as char
}

/// The decimal digits of a natural number, without leading zeros.
pub open spec fn decimal(n: nat) -> Seq<char>
    decreases n,
{
    if n < 10 {
        seq![digit_char(n)]
    } else {
        decimal(n / 10) + seq![digit_char(n % 10)]
    }
}

/// The decimal text of an integer, with a leading `-` when negative.
pub open spec fn number_text(n: int) -> Seq<char> {
    if n < 0 {
        seq!['-'] + decimal((-n) as nat)
    } else {
        decimal(n as nat)
    }
}

/// The text of a value.
pub open spec fn value_text(v: ValueV) -> Seq<char> {
    match v {
        ValueV::Nil => "nil"@,
        ValueV::True => "true"@,
        ValueV::False => "false"@,
        ValueV::Def => "def!"@,
        ValueV::Let => "let*"@,
        ValueV::Do => "do"@,
        ValueV::If => "if"@,
        ValueV::Fn => "fn*"@,
        ValueV::Quote => "quote"@,
        ValueV::Number(n) => number_text(n),
        ValueV::Quoted(e) => render(e),
        ValueV::Primitive(_) => "<fun>"@,
        ValueV::Closure { .. } => "<fun>"@,
    }
}

fn digit_str(d: u64) -> (r: &'static str)
    requires
        d < 10,
    ensures
        r@ == seq![digit_char(d as nat)],
{
    proof {
        reveal_strlit("0");
        reveal_strlit("1");
        reveal_strlit("2");
        reveal_strlit("3");
        reveal_strlit("4");
        reveal_strlit("5");
        reveal_strlit("6");
        reveal_strlit("7");
        reveal_strlit("8");
        reveal_strlit("9");
    }
    match d {
        0 => "0",
        1 => "1",
        2 => "2",
        3 => "3",
        4 => "4",
        5 => "5",
        6 => "6",
        7 => "7",
        8 => "8",
        _ => "9",
    }
}

fn decimal_string(n: u64) -> (r: String)
    ensures
        r@ == decimal(n as nat),
    decreases n,
{
    if n < 10 {
        String::from_str(digit_str(n))
    } else {
        let mut s = decimal_string(n / 10);
        s.append(digit_str(n % 10));
        s
    }
}

/// The decimal text of a number.
pub fn number_string(n: i64) -> (r: String)
    ensures
        r@ == number_text(n as int),
{
    if n < 0 {
        let m: u64 = (0i128 - n as i128) as u64;
        proof {
            reveal_strlit("-");
        }
        let mut s = String::from_str("-");
        let t = decimal_string(m);
        s.append(t.as_str());
        s
    } else {
        decimal_string(n as u64)
    }
}

impl Value {
    /// The text of this value: numbers in decimal, quoted lists in their
    /// canonical form, procedures as an opaque placeholder.
    pub fn to_text(&self) -> (r: String)
        ensures
            r@ == value_text(self@),
    {
        match self {
            Value::Nil => String::from_str("nil"),
            Value::True => String::from_str("true"),
            Value::False => String::from_str("false"),
            Value::Def => String::from_str("def!"),
            Value::Let => String::from_str("let*"),
            Value::Do => String::from_str("do"),
            Value::If => String::from_str("if"),
            Value::Fn => String::from_str("fn*"),
            Value::Quote => String::from_str("quote"),
            Value::Number(n) => number_string(*n),
            Value::Quoted(e) => e.to_text(),
            Value::Function(_) => String::from_str("<fun>"),
        }
    }

    /// A copy with the same model.
    pub fn duplicate(&self) -> (r: Value)
        ensures
            r@ == self@,
    {
        match self {
            Value::Nil => Value::Nil,
            Value::True => Value::True,
            Value::False => Value::False,
            Value::Def => Value::Def,
            Value::Let => Value::Let,
            Value::Do => Value::Do,
            Value::If => Value::If,
            Value::Fn => Value::Fn,
            Value::Quote => Value::Quote,
            Value::Number(n) => Value::Number(*n),
            Value::Quoted(e) => Value::Quoted(e.duplicate()),
            Value::Function(Function::Primitive(p)) => Value::Function(Function::Primitive(*p)),
            Value::Function(Function::Closure(c)) => {
                let params = copy_strings(&c.params);
                Value::Function(Function::Closure(Closure { env: c.env, params, body: c.body.duplicate() }))
            }
        }
    }
}

/// A copy of a list of strings.
pub fn copy_strings(v: &Vec<String>) -> (r: Vec<String>)
    ensures
        texts(r@) == texts(v@),
{
    let mut out: Vec<String> = Vec::new();
    let mut i: usize = 0;
    while i < v.len()
        invariant
            i <= v.len(),
            texts(out@) =~= texts(v@).subrange(0, i as int),
        decreases v.len() - i,
    {
        let ghost prev = out@;
        out.push(v[i].clone());
        assert(texts(out@) =~= texts(prev).push(v[i as int]@));
        i = i + 1;
    }
    assert(texts(out@) =~= texts(v@));
    out
}

impl EvalError {
    /// A line describing the error.
    pub fn message(&self) -> String {
        match self {
            EvalError::UnknownSymbol(s) => {
                let mut m = String::from_str("unknown symbol '");
                m.append(s.as_str());
                m.append("'");
                m
            }
            EvalError::Arity => String::from_str("wrong number of arguments"),
            EvalError::Type => String::from_str("invalid type: expected a number"),
            EvalError::MalformedBindings => String::from_str("malformed binding list"),
            EvalError::Overflow => String::from_str("integer overflow"),
            EvalError::DepthExceeded => String::from_str("evaluation nested too deeply"),
            EvalError::StoreFull => String::from_str("no room for another scope"),
        }
    }
}

} // verus!
