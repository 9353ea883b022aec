//! Properties that relate several steps of evaluation.
use vstd::prelude::*;
use crate::env::{find, frame_set, int_literal, keyword, new_scope, resolve, store_set, FrameV};
use crate::eval::{bind_params, sem_apply, sem_eval};
use crate::expr::ExprV;
use crate::value::ValueV;

verus! {

/// The bindings that the parameters get in a scope that starts empty.
pub open spec fn fresh_bindings(params: Seq<Seq<char>>, args: Seq<ValueV>, n: nat) -> Seq<(Seq<char>, ValueV)>
    decreases n,
{
    if n == 0 || n > params.len() || n > args.len() {
        seq![]
    } else {
        frame_set(fresh_bindings(params, args, (n - 1) as nat), params[n - 1], args[n - 1])
    }
}

proof fn lemma_bind_fresh(st: Seq<FrameV>, outer: Option<nat>, params: Seq<Seq<char>>, args: Seq<ValueV>, n: nat)
    requires
        n <= params.len(),
        n <= args.len(),
        match outer {
            Some(o) => o < st.len(),
            None => true,
        },
    ensures
        bind_params(new_scope(st, outer), st.len(), params, args, n) == st.push(
            FrameV { bindings: fresh_bindings(params, args, n), outer },
        ),
    decreases n,
{
    if n == 0 {
        assert(new_scope(st, outer) =~= st.push(FrameV { bindings: fresh_bindings(params, args, n), outer }));
    } else {
        lemma_bind_fresh(st, outer, params, args, (n - 1) as nat);
        let prev = st.push(FrameV { bindings: fresh_bindings(params, args, (n - 1) as nat), outer });
        assert(store_set(prev, st.len(), params[n - 1], args[n - 1]) =~= st.push(
            FrameV { bindings: fresh_bindings(params, args, n), outer },
        ));
    }
}

/// Calling a closure evaluates its body in a scope of its own, appended to
/// the store: every scope that existed before the call, those of earlier
/// calls included, is left as it was, and the new scope holds exactly the
/// parameters bound to this call's arguments, linked to the scope the
/// closure was made in. Nothing bound by one call is visible to another.
pub proof fn law_call_scope_is_fresh(
    env: nat,
    params: Seq<Seq<char>>,
    body: ExprV,
    args: Seq<ValueV>,
    st: Seq<FrameV>,
    d: nat,
)
    requires
        args.len() == params.len(),
        env < st.len() < usize::MAX,
    ensures
        sem_apply(ValueV::Closure { env, params, body }, args, st, d) == sem_eval(
            body,
            st.len(),
            st.push(FrameV { bindings: fresh_bindings(params, args, params.len()), outer: Some(env) }),
            d,
        ),
{
    lemma_bind_fresh(st, Some(env), params, args, params.len());
}

/// `(quote e)` evaluates to `e` as it stands, and `(quote e1 .. en)` with
/// any other number of forms to the list `(e1 .. en)`; the store is left
/// untouched: none of the quoted forms is evaluated.
pub proof fn law_quote_is_not_evaluated(rest: Seq<ExprV>, env: nat, st: Seq<FrameV>, depth: nat)
    requires
        depth >= 2,
    ensures
        sem_eval(ExprV::List(seq![ExprV::Atom("quote"@)] + rest), env, st, depth) == (
            Ok::<ValueV, crate::value::EvalErrorV>(
                if rest.len() == 1 {
                    ValueV::Quoted(rest[0])
                } else {
                    ValueV::Quoted(ExprV::List(rest))
                },
            ),
            st,
        ),
{
    reveal_strlit("quote");
    reveal_strlit("nil");
    reveal_strlit("true");
    reveal_strlit("false");
    reveal_strlit("def!");
    reveal_strlit("let*");
    reveal_strlit("do");
    reveal_strlit("if");
    let items = seq![ExprV::Atom("quote"@)] + rest;
    assert(items[0] == ExprV::Atom("quote"@));
    assert("quote"@[0] != "nil"@[0]);
    assert("quote"@[0] != "true"@[0]);
    assert("quote"@[0] != "false"@[0]);
    assert("quote"@[0] != "def!"@[0]);
    assert("quote"@[0] != "let*"@[0]);
    assert("quote"@[0] != "do"@[0]);
    assert("quote"@[0] != "if"@[0]);
    assert(keyword("quote"@) == Some(ValueV::Quote));
    assert(items.subrange(1, items.len() as int) =~= rest);
    assert(rest.len() == 1 ==> items[1] == rest[0]);
    assert(crate::env::resolve(st, env, "quote"@) == Ok::<ValueV, crate::value::EvalErrorV>(ValueV::Quote));
    assert(sem_eval(items[0], env, st, (depth - 1) as nat) == (
        Ok::<ValueV, crate::value::EvalErrorV>(ValueV::Quote),
        st,
    ));
}

proof fn lemma_find_found(b: Seq<(Seq<char>, ValueV)>, k: Seq<char>, n: nat, i: nat)
    requires
        find(b, k, n) == Some(i),
    ensures
        i < n <= b.len(),
        b[i as int].0 == k,
    decreases n,
{
    if b[n - 1].0 != k {
        lemma_find_found(b, k, (n - 1) as nat, i);
    }
}

proof fn lemma_find_after_update(b: Seq<(Seq<char>, ValueV)>, k: Seq<char>, v: ValueV, n: nat, i: nat)
    requires
        find(b, k, n) == Some(i),
    ensures
        find(b.update(i as int, (k, v)), k, n) == Some(i),
    decreases n,
{
    lemma_find_found(b, k, n, i);
    let b2 = b.update(i as int, (k, v));
    if b[n - 1].0 != k {
        assert(b2[n - 1] == b[n - 1]);
        lemma_find_after_update(b, k, v, (n - 1) as nat, i);
    }
}

/// After `name` is bound to `v` in scope `env`, resolving `name` there gives
/// `v`, unless the name is a keyword or an integer literal, which resolve
/// to themselves whatever is bound.
pub proof fn law_set_then_get(st: Seq<FrameV>, env: nat, name: Seq<char>, v: ValueV)
    requires
        env < st.len(),
        keyword(name) is None,
        int_literal(name) is None,
    ensures
        resolve(store_set(st, env, name, v), env, name) == Ok::<ValueV, crate::value::EvalErrorV>(v),
{
    let b = st[env as int].bindings;
    let b2 = frame_set(b, name, v);
    let st2 = store_set(st, env, name, v);
    assert(st2[env as int].bindings == b2);
    match find(b, name, b.len()) {
        Some(i) => {
            lemma_find_found(b, name, b.len(), i);
            lemma_find_after_update(b, name, v, b.len(), i);
            assert(b2[i as int] == (name, v));
        },
        None => {
            assert(b2[b.len() as int] == (name, v));
            assert(find(b2, name, b2.len()) == Some(b.len()));
        },
    }
}

} // verus!
