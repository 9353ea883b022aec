//! Evaluation: a big-step semantics over the models, and the evaluator that
//! follows it step for step.
use vstd::prelude::*;
use crate::env::{new_scope, resolve, store_set, FrameV, Store};
use crate::expr::{lemma_list_view, parse_text, render, views, Expr, ExprV};
use crate::value::{
    outcome, texts, value_text, value_views, Closure, Env, EvalError, EvalErrorV, Function, Prim,
    Value, ValueV,
};

verus! {

broadcast use vstd::std_specs::vec::group_vec_axioms, vstd::seq::group_seq_axioms;

/// The outcome of an evaluation step and the store after it.
pub type Outcome = (Result<ValueV, EvalErrorV>, Seq<FrameV>);

/// Only `nil` and `false` are false.
pub open spec fn truthy(v: ValueV) -> bool {
    !(v is Nil || v is False)
}

pub open spec fn in_i64(n: int) -> bool {
    i64::MIN <= n <= i64::MAX
}

/// The sum of the first `n` arguments, failing at the first non-number or
/// the first partial sum out of range.
pub open spec fn sum_of(args: Seq<ValueV>, n: nat) -> Result<int, EvalErrorV>
    decreases n,
{
    if n == 0 || n > args.len() {
        Ok(0)
    } else {
        match sum_of(args, (n - 1) as nat) {
            Err(x) => Err(x),
            Ok(t) => match args[n - 1] {
                ValueV::Number(x) => if in_i64(t + x) { Ok(t + x) } else { Err(EvalErrorV::Overflow) },
                _ => Err(EvalErrorV::Type),
            },
        }
    }
}

/// The product of the first `n` arguments, failing at the first non-number
/// or the first partial product out of range.
pub open spec fn product_of(args: Seq<ValueV>, n: nat) -> Result<int, EvalErrorV>
    decreases n,
{
    if n == 0 || n > args.len() {
        Ok(1)
    } else {
        match product_of(args, (n - 1) as nat) {
            Err(x) => Err(x),
            Ok(t) => match args[n - 1] {
                ValueV::Number(x) => if in_i64(t * x) { Ok(t * x) } else { Err(EvalErrorV::Overflow) },
                _ => Err(EvalErrorV::Type),
            },
        }
    }
}

/// What a primitive returns on the given arguments.
pub open spec fn sem_prim(p: Prim, args: Seq<ValueV>) -> Result<ValueV, EvalErrorV> {
    match p {
        Prim::Add => match sum_of(args, args.len()) {
            Ok(t) => Ok(ValueV::Number(t)),
            Err(x) => Err(x),
        },
        Prim::Mul => match product_of(args, args.len()) {
            Ok(t) => Ok(ValueV::Number(t)),
            Err(x) => Err(x),
        },
        Prim::Sub => if args.len() != 2 {
            Err(EvalErrorV::Arity)
        } else {
            match (args[0], args[1]) {
                (ValueV::Number(x), ValueV::Number(y)) => if in_i64(x - y) {
                    Ok(ValueV::Number(x - y))
                } else {
                    Err(EvalErrorV::Overflow)
                },
                _ => Err(EvalErrorV::Type),
            }
        },
        Prim::Leq => if args.len() != 2 {
            Err(EvalErrorV::Arity)
        } else {
            match (args[0], args[1]) {
                (ValueV::Number(x), ValueV::Number(y)) => Ok(if x <= y { ValueV::True } else { ValueV::False }),
                _ => Err(EvalErrorV::Type),
            }
        },
    }
}

/// The store after binding the first `n` parameters to the arguments in
/// scope `id`, in order.
pub open spec fn bind_params(st: Seq<FrameV>, id: nat, params: Seq<Seq<char>>, args: Seq<ValueV>, n: nat) -> Seq<FrameV>
    decreases n,
{
    if n == 0 || n > params.len() || n > args.len() {
        st
    } else {
        store_set(bind_params(st, id, params, args, (n - 1) as nat), id, params[n - 1], args[n - 1])
    }
}

/// The closure that `(fn* (param ..) body)` makes in scope `env`.
pub open spec fn sem_fn(items: Seq<ExprV>, env: nat) -> Result<ValueV, EvalErrorV> {
    if items.len() != 3 {
        Err(EvalErrorV::Arity)
    } else {
        match items[1] {
            ExprV::List(ps) => Ok(
                ValueV::Closure {
                    env,
                    params: Seq::new(ps.len(), |i: int| render(ps[i])),
                    body: items[2],
                },
            ),
            _ => Err(EvalErrorV::MalformedBindings),
        }
    }
}

/// `(quote e)`: the form `e`, unevaluated; `(quote e1 .. en)` for any
/// other number of forms: the list of them, unevaluated.
pub open spec fn sem_quote(items: Seq<ExprV>) -> ValueV {
    if items.len() == 2 {
        ValueV::Quoted(items[1])
    } else {
        ValueV::Quoted(ExprV::List(items.subrange(1, items.len() as int)))
    }
}

/// Evaluates `e` in scope `env`, nesting at most `depth` evaluations.
pub open spec fn sem_eval(e: ExprV, env: nat, st: Seq<FrameV>, depth: nat) -> Outcome
    decreases depth, 0nat, 0nat,
{
    if depth == 0 {
        (Err(EvalErrorV::DepthExceeded), st)
    } else {
        let d = (depth - 1) as nat;
        match e {
            ExprV::Atom(s) => (resolve(st, env, s), st),
            ExprV::List(items) => if items.len() == 0 {
                (Ok(ValueV::Nil), st)
            } else {
                let (h, st1) = sem_eval(items[0], env, st, d);
                match h {
                    Err(x) => (Err(x), st1),
                    Ok(ValueV::Def) => sem_def(items, env, st1, d),
                    Ok(ValueV::Let) => sem_let(items, env, st1, d),
                    Ok(ValueV::Do) => sem_do(items, 1, env, st1, d, ValueV::Nil),
                    Ok(ValueV::If) => sem_if(items, env, st1, d),
                    Ok(ValueV::Quote) => (Ok(sem_quote(items)), st1),
                    Ok(ValueV::Fn) => (sem_fn(items, env), st1),
                    Ok(ValueV::Primitive(p)) => sem_function(ValueV::Primitive(p), items, env, st1, d),
                    Ok(ValueV::Closure { env: ce, params, body }) => sem_function(
                        ValueV::Closure { env: ce, params, body },
                        items,
                        env,
                        st1,
                        d,
                    ),
                    Ok(v) => (Err(EvalErrorV::UnknownSymbol(value_text(v))), st1),
                }
            },
        }
    }
}

/// `(def! name value)`: binds the rendering of `name` in the current scope.
pub open spec fn sem_def(items: Seq<ExprV>, env: nat, st: Seq<FrameV>, d: nat) -> Outcome
    decreases d, 3nat, 0nat,
{
    if items.len() != 3 {
        (Err(EvalErrorV::Arity), st)
    } else {
        let (r, st1) = sem_eval(items[2], env, st, d);
        match r {
            Err(x) => (Err(x), st1),
            Ok(v) => (Ok(v), store_set(st1, env, render(items[1]), v)),
        }
    }
}

/// `(let* (k1 v1 ..) body)`: one new scope, each value evaluated in it in
/// turn and bound there, then the body evaluated in it.
pub open spec fn sem_let(items: Seq<ExprV>, env: nat, st: Seq<FrameV>, d: nat) -> Outcome
    decreases d, 3nat, 0nat,
{
    if items.len() != 3 {
        (Err(EvalErrorV::Arity), st)
    } else {
        match items[1] {
            ExprV::List(pairs) => if pairs.len() % 2 != 0 {
                (Err(EvalErrorV::MalformedBindings), st)
            } else if st.len() >= usize::MAX {
                (Err(EvalErrorV::StoreFull), st)
            } else {
                let id = st.len();
                let (r, st2) = sem_bindings(pairs, 0, id, new_scope(st, Some(env)), d);
                match r {
                    Some(x) => (Err(x), st2),
                    None => sem_eval(items[2], id, st2, d),
                }
            },
            _ => (Err(EvalErrorV::MalformedBindings), st),
        }
    }
}

/// The pairs of a `let*` from position `k` on, each value evaluated and bound
/// in scope `id`; the first failure, if any.
pub open spec fn sem_bindings(pairs: Seq<ExprV>, k: nat, id: nat, st: Seq<FrameV>, d: nat) -> (
    Option<EvalErrorV>,
    Seq<FrameV>,
)
    decreases d, 1nat, pairs.len() - k,
{
    if pairs.len() - k <= 1 {
        (None, st)
    } else {
        let (r, st1) = sem_eval(pairs[k + 1 as int], id, st, d);
        match r {
            Err(x) => (Some(x), st1),
            Ok(v) => sem_bindings(pairs, k + 2, id, store_set(st1, id, render(pairs[k as int]), v), d),
        }
    }
}

/// `(do e1 .. en)` from position `i` on: each form in turn, the last value
/// (`last` when none is left).
pub open spec fn sem_do(items: Seq<ExprV>, i: nat, env: nat, st: Seq<FrameV>, d: nat, last: ValueV) -> Outcome
    decreases d, 1nat, items.len() - i,
{
    if i >= items.len() {
        (Ok(last), st)
    } else {
        let (r, st1) = sem_eval(items[i as int], env, st, d);
        match r {
            Err(x) => (Err(x), st1),
            Ok(v) => sem_do(items, i + 1, env, st1, d, v),
        }
    }
}

/// `(if cond then else?)`.
pub open spec fn sem_if(items: Seq<ExprV>, env: nat, st: Seq<FrameV>, d: nat) -> Outcome
    decreases d, 3nat, 0nat,
{
    if items.len() <= 2 {
        (Err(EvalErrorV::Arity), st)
    } else {
        let (c, st1) = sem_eval(items[1], env, st, d);
        match c {
            Err(x) => (Err(x), st1),
            Ok(cv) => if !truthy(cv) {
                if items.len() == 3 {
                    (Ok(ValueV::Nil), st1)
                } else if items.len() == 4 {
                    sem_eval(items[3], env, st1, d)
                } else {
                    (Err(EvalErrorV::Arity), st1)
                }
            } else if items.len() <= 4 {
                sem_eval(items[2], env, st1, d)
            } else {
                (Err(EvalErrorV::Arity), st1)
            },
        }
    }
}

/// The arguments from position `i` on, evaluated in turn after `acc`.
pub open spec fn sem_args(items: Seq<ExprV>, i: nat, env: nat, st: Seq<FrameV>, d: nat, acc: Seq<ValueV>) -> (
    Result<Seq<ValueV>, EvalErrorV>,
    Seq<FrameV>,
)
    decreases d, 1nat, items.len() - i,
{
    if i >= items.len() {
        (Ok(acc), st)
    } else {
        let (r, st1) = sem_eval(items[i as int], env, st, d);
        match r {
            Err(x) => (Err(x), st1),
            Ok(v) => sem_args(items, i + 1, env, st1, d, acc.push(v)),
        }
    }
}

/// `(f a1 .. an)` with `f` a procedure: the arguments in turn, then `f`
/// applied to them.
pub open spec fn sem_function(f: ValueV, items: Seq<ExprV>, env: nat, st: Seq<FrameV>, d: nat) -> Outcome
    decreases d, 3nat, 0nat,
{
    let (r, st1) = sem_args(items, 1, env, st, d, seq![]);
    match r {
        Err(x) => (Err(x), st1),
        Ok(args) => sem_apply(f, args, st1, d),
    }
}

/// Applies a procedure. A closure gets a fresh scope linked to the one it was
/// made in, with its parameters bound to the arguments.
pub open spec fn sem_apply(f: ValueV, args: Seq<ValueV>, st: Seq<FrameV>, d: nat) -> Outcome
    decreases d, 2nat, 0nat,
{
    match f {
        ValueV::Primitive(p) => (sem_prim(p, args), st),
        ValueV::Closure { env, params, body } => if args.len() != params.len() {
            (Err(EvalErrorV::Arity), st)
        } else if st.len() >= usize::MAX {
            (Err(EvalErrorV::StoreFull), st)
        } else {
            let id = st.len();
            sem_eval(body, id, bind_params(new_scope(st, Some(env)), id, params, args, params.len()), d)
        },
        _ => (Err(EvalErrorV::UnknownSymbol(value_text(f))), st),
    }
}

/// The model of an optional failure.
pub open spec fn failure(r: Option<EvalError>) -> Option<EvalErrorV> {
    match r {
        Some(x) => Some(x@),
        None => None,
    }
}

proof fn lemma_sum_failure_stays(args: Seq<ValueV>, i: nat, n: nat)
    requires
        i <= n <= args.len(),
        sum_of(args, i) is Err,
    ensures
        sum_of(args, n) == sum_of(args, i),
    decreases n,
{
    if n > i {
        lemma_sum_failure_stays(args, i, (n - 1) as nat);
    }
}

proof fn lemma_product_failure_stays(args: Seq<ValueV>, i: nat, n: nat)
    requires
        i <= n <= args.len(),
        product_of(args, i) is Err,
    ensures
        product_of(args, n) == product_of(args, i),
    decreases n,
{
    if n > i {
        lemma_product_failure_stays(args, i, (n - 1) as nat);
    }
}

/// `+`: the sum of all arguments, 0 for none.
fn add(args: &Vec<Value>) -> (r: Result<Value, EvalError>)
    ensures
        outcome(r) == sem_prim(Prim::Add, value_views(args@)),
{
    let ghost vv = value_views(args@);
    let mut total: i64 = 0;
    let mut i: usize = 0;
    while i < args.len()
        invariant
            i <= args.len(),
            vv == value_views(args@),
            sum_of(vv, i as nat) == Ok::<int, EvalErrorV>(total as int),
        decreases args.len() - i,
    {
        match &args[i] {
            Value::Number(n) => {
                let t: i128 = total as i128 + *n as i128;
                if t < i64::MIN as i128 || t > i64::MAX as i128 {
                    proof {
                        lemma_sum_failure_stays(vv, (i + 1) as nat, vv.len());
                    }
                    return Err(EvalError::Overflow);
                }
                total = t as i64;
            },
            _ => {
                proof {
                    lemma_sum_failure_stays(vv, (i + 1) as nat, vv.len());
                }
                return Err(EvalError::Type);
            },
        }
        i = i + 1;
    }
    Ok(Value::Number(total))
}

/// `*`: the product of all arguments, 1 for none.
fn mul(args: &Vec<Value>) -> (r: Result<Value, EvalError>)
    ensures
        outcome(r) == sem_prim(Prim::Mul, value_views(args@)),
{
    let ghost vv = value_views(args@);
    let mut total: i64 = 1;
    let mut i: usize = 0;
    while i < args.len()
        invariant
            i <= args.len(),
            vv == value_views(args@),
            product_of(vv, i as nat) == Ok::<int, EvalErrorV>(total as int),
        decreases args.len() - i,
    {
        match &args[i] {
            Value::Number(n) => {
                let a: i128 = total as i128;
                let b: i128 = *n as i128;
                assert(-0x4000_0000_0000_0000_0000_0000_0000_0000 <= a * b <= 0x4000_0000_0000_0000_0000_0000_0000_0000)
                    by (nonlinear_arith)
                    requires
                        -0x8000_0000_0000_0000 <= a <= 0x8000_0000_0000_0000,
                        -0x8000_0000_0000_0000 <= b <= 0x8000_0000_0000_0000,
                ;
                let t: i128 = a * b;
                if t < i64::MIN as i128 || t > i64::MAX as i128 {
                    proof {
                        lemma_product_failure_stays(vv, (i + 1) as nat, vv.len());
                    }
                    return Err(EvalError::Overflow);
                }
                total = t as i64;
            },
            _ => {
                proof {
                    lemma_product_failure_stays(vv, (i + 1) as nat, vv.len());
                }
                return Err(EvalError::Type);
            },
        }
        i = i + 1;
    }
    Ok(Value::Number(total))
}

/// `-`: the difference of exactly two numbers.
fn sub(args: &Vec<Value>) -> (r: Result<Value, EvalError>)
    ensures
        outcome(r) == sem_prim(Prim::Sub, value_views(args@)),
{
    if args.len() != 2 {
        return Err(EvalError::Arity);
    }
    match (&args[0], &args[1]) {
        (Value::Number(x), Value::Number(y)) => {
            let t: i128 = *x as i128 - *y as i128;
            if t < i64::MIN as i128 || t > i64::MAX as i128 {
                Err(EvalError::Overflow)
            } else {
                Ok(Value::Number(t as i64))
            }
        },
        _ => Err(EvalError::Type),
    }
}

/// `<=`: whether the first of exactly two numbers is at most the second.
fn leq(args: &Vec<Value>) -> (r: Result<Value, EvalError>)
    ensures
        outcome(r) == sem_prim(Prim::Leq, value_views(args@)),
{
    if args.len() != 2 {
        return Err(EvalError::Arity);
    }
    match (&args[0], &args[1]) {
        (Value::Number(x), Value::Number(y)) => Ok(
            if *x <= *y {
                Value::True
            } else {
                Value::False
            },
        ),
        _ => Err(EvalError::Type),
    }
}

/// Applies a primitive to its arguments.
pub fn apply_prim(p: Prim, args: &Vec<Value>) -> (r: Result<Value, EvalError>)
    ensures
        outcome(r) == sem_prim(p, value_views(args@)),
{
    match p {
        Prim::Add => crate::eval::add(args),
        Prim::Sub => crate::eval::sub(args),
        Prim::Mul => crate::eval::mul(args),
        Prim::Leq => leq(args),
    }
}

/// Evaluates `expr` in scope `env`, nesting at most `depth` evaluations.
pub fn eval(expr: &Expr, env: Env, store: &mut Store, depth: u64) -> (r: Result<Value, EvalError>)
    ensures
        (outcome(r), final(store)@) == sem_eval(expr@, env.id as nat, old(store)@, depth as nat),
    decreases depth, 0nat, 0nat,
{
    if depth == 0 {
        return Err(EvalError::DepthExceeded);
    }
    let d = depth - 1;
    match expr {
        Expr::Atom(s) => env.get(store, s.as_str()),
        Expr::List(items) => {
            proof {
                lemma_list_view(*items);
            }
            if items.len() == 0 {
                return Ok(Value::Nil);
            }
            let head = eval(&items[0], env, store, d);
            match head {
                Err(x) => Err(x),
                Ok(Value::Def) => eval_def(items, env, store, d),
                Ok(Value::Let) => eval_let(items, env, store, d),
                Ok(Value::Do) => eval_do(items, 1, env, store, d, Value::Nil),
                Ok(Value::If) => eval_if(items, env, store, d),
                Ok(Value::Quote) => Ok(eval_quote(items)),
                Ok(Value::Fn) => eval_fn(items, env),
                Ok(Value::Function(f)) => eval_function(f, items, env, store, d),
                Ok(v) => Err(EvalError::UnknownSymbol(v.to_text())),
            }
        },
    }
}

/// `(def! name value)`.
fn eval_def(items: &Vec<Expr>, env: Env, store: &mut Store, d: u64) -> (r: Result<Value, EvalError>)
    ensures
        (outcome(r), final(store)@) == sem_def(views(items@), env.id as nat, old(store)@, d as nat),
    decreases d, 3nat, 0nat,
{
    if items.len() != 3 {
        return Err(EvalError::Arity);
    }
    let key = items[1].to_text();
    match eval(&items[2], env, store, d) {
        Err(x) => Err(x),
        Ok(v) => {
            let stored = v.duplicate();
            env.set(store, key.as_str(), stored);
            Ok(v)
        },
    }
}

/// `(let* (k1 v1 ..) body)`.
fn eval_let(items: &Vec<Expr>, env: Env, store: &mut Store, d: u64) -> (r: Result<Value, EvalError>)
    ensures
        (outcome(r), final(store)@) == sem_let(views(items@), env.id as nat, old(store)@, d as nat),
    decreases d, 3nat, 0nat,
{
    if items.len() != 3 {
        return Err(EvalError::Arity);
    }
    match &items[1] {
        Expr::List(pairs) => {
            proof {
                lemma_list_view(*pairs);
            }
            if pairs.len() % 2 != 0 {
                return Err(EvalError::MalformedBindings);
            }
            if store.len() == usize::MAX {
                return Err(EvalError::StoreFull);
            }
            let scope = Env::new(store, Some(env));
            match eval_bindings(pairs, 0, scope, store, d) {
                Some(x) => Err(x),
                None => eval(&items[2], scope, store, d),
            }
        },
        Expr::Atom(_) => Err(EvalError::MalformedBindings),
    }
}

/// The pairs of a `let*` from position `k` on, bound in `scope`.
fn eval_bindings(pairs: &Vec<Expr>, k: usize, scope: Env, store: &mut Store, d: u64) -> (r: Option<EvalError>)
    requires
        k <= pairs.len(),
    ensures
        (failure(r), final(store)@) == sem_bindings(views(pairs@), k as nat, scope.id as nat, old(store)@, d as nat),
    decreases d, 1nat, pairs.len() - k,
{
    if pairs.len() - k <= 1 {
        return None;
    }
    let key = pairs[k].to_text();
    match eval(&pairs[k + 1], scope, store, d) {
        Err(x) => Some(x),
        Ok(v) => {
            scope.set(store, key.as_str(), v);
            eval_bindings(pairs, k + 2, scope, store, d)
        },
    }
}

/// `(do e1 .. en)` from position `i` on.
fn eval_do(items: &Vec<Expr>, i: usize, env: Env, store: &mut Store, d: u64, last: Value) -> (r: Result<Value, EvalError>)
    ensures
        (outcome(r), final(store)@) == sem_do(views(items@), i as nat, env.id as nat, old(store)@, d as nat, last@),
    decreases d, 1nat, items.len() - i,
{
    if i >= items.len() {
        return Ok(last);
    }
    match eval(&items[i], env, store, d) {
        Err(x) => Err(x),
        Ok(v) => eval_do(items, i + 1, env, store, d, v),
    }
}

/// `(if cond then else?)`.
fn eval_if(items: &Vec<Expr>, env: Env, store: &mut Store, d: u64) -> (r: Result<Value, EvalError>)
    ensures
        (outcome(r), final(store)@) == sem_if(views(items@), env.id as nat, old(store)@, d as nat),
    decreases d, 3nat, 0nat,
{
    if items.len() <= 2 {
        return Err(EvalError::Arity);
    }
    match eval(&items[1], env, store, d) {
        Err(x) => Err(x),
        Ok(c) => {
            let falsy = match c {
                Value::Nil => true,
                Value::False => true,
                _ => false,
            };
            if falsy {
                if items.len() == 3 {
                    Ok(Value::Nil)
                } else if items.len() == 4 {
                    eval(&items[3], env, store, d)
                } else {
                    Err(EvalError::Arity)
                }
            } else if items.len() <= 4 {
                eval(&items[2], env, store, d)
            } else {
                Err(EvalError::Arity)
            }
        },
    }
}

/// `(quote e1 .. en)`.
fn eval_quote(items: &Vec<Expr>) -> (r: Value)
    requires
        items.len() >= 1,
    ensures
        r@ == sem_quote(views(items@)),
{
    if items.len() == 2 {
        return Value::Quoted(items[1].duplicate());
    }
    let mut out: Vec<Expr> = Vec::new();
    let mut i: usize = 1;
    while i < items.len()
        invariant
            1 <= i <= items.len(),
            views(out@) =~= views(items@).subrange(1, i as int),
        decreases items.len() - i,
    {
        let ghost prev = out@;
        out.push(items[i].duplicate());
        assert(views(out@) =~= views(prev).push(items[i as int]@));
        i = i + 1;
    }
    proof {
        lemma_list_view(out);
    }
    Value::Quoted(Expr::List(out))
}

/// `(fn* (param ..) body)`.
fn eval_fn(items: &Vec<Expr>, env: Env) -> (r: Result<Value, EvalError>)
    ensures
        outcome(r) == sem_fn(views(items@), env.id as nat),
{
    if items.len() != 3 {
        return Err(EvalError::Arity);
    }
    match &items[1] {
        Expr::List(ps) => {
            proof {
                lemma_list_view(*ps);
            }
            let ghost pv = views(ps@);
            let mut params: Vec<String> = Vec::new();
            let mut i: usize = 0;
            while i < ps.len()
                invariant
                    i <= ps.len(),
                    pv == views(ps@),
                    texts(params@) =~= Seq::new(pv.len(), |j: int| render(pv[j])).subrange(0, i as int),
                decreases ps.len() - i,
            {
                let ghost prev = params@;
                params.push(ps[i].to_text());
                assert(texts(params@) =~= texts(prev).push(render(pv[i as int])));
                i = i + 1;
            }
            let body = items[2].duplicate();
            let r = Value::Function(Function::Closure(Closure { env, params, body }));
            assert(texts(params@) =~= Seq::new(pv.len(), |j: int| render(pv[j])));
            Ok(r)
        },
        Expr::Atom(_) => Err(EvalError::MalformedBindings),
    }
}

/// The arguments from position `i` on, evaluated in turn after `acc`.
fn eval_args(items: &Vec<Expr>, i: usize, env: Env, store: &mut Store, d: u64, acc: Vec<Value>) -> (r: Result<Vec<Value>, EvalError>)
    ensures
        ({
            let (want, st) = sem_args(views(items@), i as nat, env.id as nat, old(store)@, d as nat, value_views(acc@));
            &&& final(store)@ == st
            &&& match r {
                Ok(vs) => want == Ok::<Seq<ValueV>, EvalErrorV>(value_views(vs@)),
                Err(x) => want == Err::<Seq<ValueV>, EvalErrorV>(x@),
            }
        }),
    decreases d, 1nat, items.len() - i,
{
    if i >= items.len() {
        return Ok(acc);
    }
    match eval(&items[i], env, store, d) {
        Err(x) => Err(x),
        Ok(v) => {
            let mut acc = acc;
            let ghost prev = acc@;
            let ghost vv = v@;
            acc.push(v);
            assert(value_views(acc@) =~= value_views(prev).push(vv));
            eval_args(items, i + 1, env, store, d, acc)
        },
    }
}

/// `(f a1 .. an)` with `f` a procedure.
fn eval_function(f: Function, items: &Vec<Expr>, env: Env, store: &mut Store, d: u64) -> (r: Result<Value, EvalError>)
    ensures
        (outcome(r), final(store)@) == sem_function(Value::Function(f)@, views(items@), env.id as nat, old(store)@, d as nat),
    decreases d, 3nat, 0nat,
{
    let acc: Vec<Value> = Vec::new();
    assert(value_views(acc@) =~= seq![]);
    match eval_args(items, 1, env, store, d, acc) {
        Err(x) => Err(x),
        Ok(args) => apply(&f, args, store, d),
    }
}

/// Applies a procedure to evaluated arguments.
pub fn apply(f: &Function, args: Vec<Value>, store: &mut Store, d: u64) -> (r: Result<Value, EvalError>)
    ensures
        (outcome(r), final(store)@) == sem_apply(Value::Function(*f)@, value_views(args@), old(store)@, d as nat),
    decreases d, 2nat, 0nat,
{
    match f {
        Function::Primitive(p) => apply_prim(*p, &args),
        Function::Closure(c) => {
            if args.len() != c.params.len() {
                return Err(EvalError::Arity);
            }
            if store.len() == usize::MAX {
                return Err(EvalError::StoreFull);
            }
            let ghost pv = texts(c.params@);
            let ghost av = value_views(args@);
            let scope = Env::new(store, Some(c.env));
            let ghost st1 = store@;
            let mut i: usize = 0;
            while i < c.params.len()
                invariant
                    i <= c.params.len(),
                    c.params.len() == args.len(),
                    pv == texts(c.params@),
                    av == value_views(args@),
                    store@ == bind_params(st1, scope.id as nat, pv, av, i as nat),
                decreases c.params.len() - i,
            {
                scope.set(store, c.params[i].as_str(), args[i].duplicate());
                i = i + 1;
            }
            eval(&c.body, scope, store, d)
        },
    }
}

/// How deeply evaluations may nest by default.
pub const DEFAULT_DEPTH: u64 = 2000;

/// Parses one line, evaluates it in scope `env` and renders the value; on
/// failure, a line describing the parse or evaluation error. A line that
/// does not parse leaves the store as it was.
pub fn run_line(line: String, env: Env, store: &mut Store, depth: u64) -> (r: Result<String, String>)
    ensures
        match parse_text(line@) {
            Err(_) => r is Err && final(store)@ == old(store)@,
            Ok(e) => {
                let (o, st) = sem_eval(e, env.id as nat, old(store)@, depth as nat);
                &&& final(store)@ == st
                &&& match o {
                    Ok(v) => r is Ok && r->Ok_0@ == value_text(v),
                    Err(_) => r is Err,
                }
            },
        },
{
    match Expr::parse(line) {
        Err(x) => Err(x.message()),
        Ok(e) => match eval(&e, env, store, depth) {
            Ok(v) => Ok(v.to_text()),
            Err(x) => Err(x.message()),
        },
    }
}

} // verus!
