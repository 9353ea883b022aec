//! Scopes: an arena of frames, each with its own bindings and a link to the
//! enclosing frame, and symbol resolution along that chain.
use vstd::prelude::*;
use crate::value::{Env, EvalError, EvalErrorV, Function, Prim, Value, ValueV};

verus! {

/// One scope: its bindings, each name at most once, and the enclosing scope.
#[derive(Debug)]
pub struct Frame {
    pub bindings: Vec<(String, Value)>,
    pub outer: Option<usize>,
}

/// The model of a scope.
pub struct FrameV {
    pub bindings: Seq<(Seq<char>, ValueV)>,
    pub outer: Option<nat>,
}

/// The models of a list of bindings.
pub open spec fn binding_views(b: Seq<(String, Value)>) -> Seq<(Seq<char>, ValueV)> {
    Seq::new(b.len(), |i: int| (b[i].0@, b[i].1@))
}

impl View for Frame {
    type V = FrameV;

    open spec fn view(&self) -> FrameV {
        FrameV {
            bindings: binding_views(self.bindings@),
            outer: match self.outer {
                Some(o) => Some(o as nat),
                None => None,
            },
        }
    }
}

/// Every scope that evaluation has created. An `Env` names one of them by
/// its position; a scope only ever links to one created before it, so every
/// chain of enclosing scopes ends.
#[derive(Debug)]
pub struct Store {
    frames: Vec<Frame>,
}

impl Store {
    #[verifier::type_invariant]
    spec fn links_outward(&self) -> bool {
        forall|i: int|
            0 <= i < self.frames@.len() ==> match (#[trigger] self.frames@[i]).outer {
                Some(o) => o < i,
                None => true,
            }
    }
}

impl View for Store {
    type V = Seq<FrameV>;

    closed spec fn view(&self) -> Seq<FrameV> {
        Seq::new(self.frames@.len(), |i: int| self.frames@[i]@)
    }
}

/// The position of the binding of `k` among the first `n` bindings.
pub open spec fn find(b: Seq<(Seq<char>, ValueV)>, k: Seq<char>, n: nat) -> Option<nat>
    decreases n,
{
    if n == 0 || n > b.len() {
        None
    } else if b[n - 1].0 == k {
        Some((n - 1) as nat)
    } else {
        find(b, k, (n - 1) as nat)
    }
}

/// Bindings after binding `k` to `v`: an existing binding is overwritten.
pub open spec fn frame_set(b: Seq<(Seq<char>, ValueV)>, k: Seq<char>, v: ValueV) -> Seq<(Seq<char>, ValueV)> {
    match find(b, k, b.len()) {
        Some(i) => b.update(i as int, (k, v)),
        None => b.push((k, v)),
    }
}

/// The store after binding `k` to `v` in scope `env` only.
pub open spec fn store_set(st: Seq<FrameV>, env: nat, k: Seq<char>, v: ValueV) -> Seq<FrameV> {
    if env < st.len() {
        st.update(env as int, FrameV { bindings: frame_set(st[env as int].bindings, k, v), outer: st[env as int].outer })
    } else {
        st
    }
}

/// The store with a new, empty scope linked to `outer`; a scope that the
/// store does not hold is no link.
pub open spec fn new_scope(st: Seq<FrameV>, outer: Option<nat>) -> Seq<FrameV> {
    st.push(
        FrameV {
            bindings: seq![],
            outer: match outer {
                Some(o) => if o < st.len() { Some(o) } else { None },
                None => None,
            },
        },
    )
}

/// The value bound to `k` in scope `env` or, failing that, along its chain
/// of enclosing scopes.
pub open spec fn lookup(st: Seq<FrameV>, env: int, k: Seq<char>) -> Option<ValueV>
    decreases env,
{
    if 0 <= env < st.len() {
        let b = st[env].bindings;
        match find(b, k, b.len()) {
            Some(i) => Some(b[i as int].1),
            None => match st[env].outer {
                Some(o) => if o < env { lookup(st, o as int, k) } else { None },
                None => None,
            },
        }
    } else {
        None
    }
}

/// The names that stand for a fixed value wherever they appear.
pub open spec fn keyword(s: Seq<char>) -> Option<ValueV> {
    if s == "nil"@ {
        Some(ValueV::Nil)
    } else if s == "true"@ {
        Some(ValueV::True)
    } else if s == "false"@ {
        Some(ValueV::False)
    } else if s == "def!"@ {
        Some(ValueV::Def)
    } else if s == "let*"@ {
        Some(ValueV::Let)
    } else if s == "do"@ {
        Some(ValueV::Do)
    } else if s == "if"@ {
        Some(ValueV::If)
    } else if s == "quote"@ {
        Some(ValueV::Quote)
    } else if s == "fn*"@ {
        Some(ValueV::Fn)
    } else {
        None
    }
}

pub open spec fn is_digit(c: char) -> bool {
    48 <= c as u32 <= 57
}

/// The value of a run of decimal digits.
pub open spec fn digits_value(ds: Seq<char>) -> int
    decreases ds.len(),
{
    if ds.len() == 0 {
        0
    } else {
        digits_value(ds.drop_last()) * 10 + (ds.last() as u32 - 48)
    }
}

pub open spec fn sign_len(s: Seq<char>) -> int {
    if s.len() > 0 && (s[0] == '-' || s[0] == '+') {
        1
    } else {
        0
    }
}

/// The 64-bit integer that `s` spells: an optional sign, then one or more
/// decimal digits, within range.
pub open spec fn int_literal(s: Seq<char>) -> Option<int> {
    let ds = s.subrange(sign_len(s), s.len() as int);
    let v = if s.len() > 0 && s[0] == '-' { -digits_value(ds) } else { digits_value(ds) };
    if ds.len() > 0 && (forall|i: int| 0 <= i < ds.len() ==> is_digit(#[trigger] ds[i])) && i64::MIN <= v
        <= i64::MAX {
        Some(v)
    } else {
        None
    }
}

/// What a symbol resolves to in scope `env`: a keyword, then an integer
/// literal, then a binding along the chain of scopes.
pub open spec fn resolve(st: Seq<FrameV>, env: nat, s: Seq<char>) -> Result<ValueV, EvalErrorV> {
    match keyword(s) {
        Some(v) => Ok(v),
        None => match int_literal(s) {
            Some(n) => Ok(ValueV::Number(n)),
            None => match lookup(st, env as int, s) {
                Some(v) => Ok(v),
                None => Err(EvalErrorV::UnknownSymbol(s)),
            },
        },
    }
}

/// The scope that `Store::new` creates, holding the primitives.
pub open spec fn global_frame() -> FrameV {
    FrameV {
        bindings: seq![
            ("+"@, ValueV::Primitive(Prim::Add)),
            ("-"@, ValueV::Primitive(Prim::Sub)),
            ("*"@, ValueV::Primitive(Prim::Mul)),
            ("<="@, ValueV::Primitive(Prim::Leq)),
        ],
        outer: None,
    }
}

/// Whether two strings hold the same characters.
pub fn text_is(a: &str, b: &str) -> (r: bool)
    ensures
        r == (a@ == b@),
{
    let n = a.unicode_len();
    if n != b.unicode_len() {
        return false;
    }
    let mut i: usize = 0;
    while i < n
        invariant
            n == a@.len(),
            n == b@.len(),
            i <= n,
            forall|j: int| 0 <= j < i ==> a@[j] == b@[j],
        decreases n - i,
    {
        if a.get_char(i) != b.get_char(i) {
            return false;
        }
        i = i + 1;
    }
    assert(a@ =~= b@);
    true
}

/// The characters of a string.
pub fn chars_of(s: &str) -> (r: Vec<char>)
    ensures
        r@ == s@,
{
    let n = s.unicode_len();
    let mut out: Vec<char> = Vec::new();
    let mut i: usize = 0;
    while i < n
        invariant
            n == s@.len(),
            i <= n,
            out@ =~= s@.subrange(0, i as int),
        decreases n - i,
    {
        out.push(s.get_char(i));
        i = i + 1;
    }
    out
}

/// The integer that `s` spells, as `int_literal` states.
pub fn parse_int(s: &Vec<char>) -> (r: Option<i64>)
    ensures
        match r {
            Some(n) => int_literal(s@) == Some(n as int),
            None => int_literal(s@) is None,
        },
{
    let n = s.len();
    if n == 0 {
        return None;
    }
    let neg = s[0] == '-';
    let start: usize = if s[0] == '-' || s[0] == '+' { 1 } else { 0 };
    let ghost ds = s@.subrange(start as int, n as int);
    assert(sign_len(s@) == start);
    if start == n {
        return None;
    }
    let limit: u128 = 9223372036854775808;
    let mut acc: u128 = 0;
    let mut over = false;
    let mut i: usize = start;
    while i < n
        invariant
            start <= i <= n,
            n == s@.len(),
            ds == s@.subrange(start as int, n as int),
            sign_len(s@) == start,
            neg == (s@[0] == '-'),
            n > 0,
            forall|j: int| start <= j < i ==> is_digit(#[trigger] s@[j]),
            !over ==> acc <= limit && acc == digits_value(s@.subrange(start as int, i as int)),
            over ==> digits_value(s@.subrange(start as int, i as int)) > limit,
            limit == 9223372036854775808,
        decreases n - i,
    {
        let c = s[i];
        let u: u32 = c as u32;
        if !(48 <= u && u <= 57) {
            assert(ds[i - start] == c);
            assert(!is_digit(ds[i - start]));
            assert(!(forall|j: int| 0 <= j < ds.len() ==> is_digit(#[trigger] ds[j])));
            return None;
        }
        let d = (u - 48) as u128;
        assert(s@.subrange(start as int, i + 1).drop_last() =~= s@.subrange(start as int, i as int));
        if !over {
            acc = acc * 10 + d;
            if acc > limit {
                over = true;
            }
        }
        i = i + 1;
    }
    assert(s@.subrange(start as int, n as int) =~= ds);
    assert(forall|j: int| 0 <= j < ds.len() ==> #[trigger] ds[j] == s@[j + start]);
    if over {
        return None;
    }
    if neg {
        Some((0i128 - acc as i128) as i64)
    } else if acc > 9223372036854775807 {
        None
    } else {
        Some(acc as i64)
    }
}

impl Store {
    /// A store holding only the global scope, in which the primitives `+`,
    /// `-`, `*` and `<=` are bound.
    pub fn new() -> (r: Store)
        ensures
            r@ == seq![global_frame()],
    {
        proof {
            reveal_strlit("+");
            reveal_strlit("-");
            reveal_strlit("*");
            reveal_strlit("<=");
        }
        let mut b: Vec<(String, Value)> = Vec::new();
        b.push((String::from_str("+"), Value::Function(Function::Primitive(Prim::Add))));
        b.push((String::from_str("-"), Value::Function(Function::Primitive(Prim::Sub))));
        b.push((String::from_str("*"), Value::Function(Function::Primitive(Prim::Mul))));
        b.push((String::from_str("<="), Value::Function(Function::Primitive(Prim::Leq))));
        let mut frames: Vec<Frame> = Vec::new();
        frames.push(Frame { bindings: b, outer: None });
        let r = Store { frames };
        assert(r@[0].bindings =~= global_frame().bindings);
        assert(r@ =~= seq![global_frame()]);
        r
    }

    /// The number of scopes created so far.
    pub fn len(&self) -> (r: usize)
        ensures
            r == self@.len(),
    {
        self.frames.len()
    }
}

/// The position of the binding of `k` in `b`, if any.
fn find_binding(b: &Vec<(String, Value)>, k: &str) -> (r: Option<usize>)
    ensures
        match r {
            Some(i) => find(binding_views(b@), k@, b@.len()) == Some(i as nat) && i < b@.len(),
            None => find(binding_views(b@), k@, b@.len()) is None,
        },
{
    let ghost bv = binding_views(b@);
    let mut i: usize = b.len();
    while i > 0
        invariant
            i <= b@.len(),
            bv == binding_views(b@),
            find(bv, k@, b@.len()) == find(bv, k@, i as nat),
        decreases i,
    {
        if text_is(b[i - 1].0.as_str(), k) {
            return Some(i - 1);
        }
        i = i - 1;
    }
    None
}

impl Env {
    /// The global scope of every store.
    pub fn global() -> (r: Env)
        ensures
            r.id == 0,
    {
        Env { id: 0 }
    }

    /// Creates an empty scope linked to `outer`, when `outer` names a scope
    /// of this store.
    pub fn new(store: &mut Store, outer: Option<Env>) -> (r: Env)
        requires
            old(store)@.len() < usize::MAX,
        ensures
            r.id == old(store)@.len(),
            final(store)@ == new_scope(
                old(store)@,
                match outer {
                    Some(e) => Some(e.id as nat),
                    None => None,
                },
            ),
    {
        let id = store.frames.len();
        let o = match outer {
            Some(e) => if e.id < id {
                Some(e.id)
            } else {
                None
            },
            None => None,
        };
        let mut taken = Store { frames: Vec::new() };
        core::mem::swap(store, &mut taken);
        proof {
            use_type_invariant(&taken);
        }
        let mut frames = taken.frames;
        frames.push(Frame { bindings: Vec::new(), outer: o });
        *store = Store { frames };
        let ghost want = new_scope(
            old(store)@,
            match outer {
                Some(e) => Some(e.id as nat),
                None => None,
            },
        );
        assert(store@[id as int].bindings =~= want[id as int].bindings);
        assert(store@ =~= want);
        Env { id }
    }

    /// Resolves `symbol` here: keywords first, then integer literals, then
    /// the bindings of this scope and of its enclosing ones.
    pub fn get(&self, store: &Store, symbol: &str) -> (r: Result<Value, EvalError>)
        ensures
            crate::value::outcome(r) == resolve(store@, self.id as nat, symbol@),
    {
        proof {
            reveal_strlit("nil");
            reveal_strlit("true");
            reveal_strlit("false");
            reveal_strlit("def!");
            reveal_strlit("let*");
            reveal_strlit("do");
            reveal_strlit("if");
            reveal_strlit("quote");
            reveal_strlit("fn*");
        }
        if text_is(symbol, "nil") {
            Ok(Value::Nil)
        } else if text_is(symbol, "true") {
            Ok(Value::True)
        } else if text_is(symbol, "false") {
            Ok(Value::False)
        } else if text_is(symbol, "def!") {
            Ok(Value::Def)
        } else if text_is(symbol, "let*") {
            Ok(Value::Let)
        } else if text_is(symbol, "do") {
            Ok(Value::Do)
        } else if text_is(symbol, "if") {
            Ok(Value::If)
        } else if text_is(symbol, "quote") {
            Ok(Value::Quote)
        } else if text_is(symbol, "fn*") {
            Ok(Value::Fn)
        } else {
            let cs = chars_of(symbol);
            match parse_int(&cs) {
                Some(n) => Ok(Value::Number(n)),
                None => match self.get_from_map(store, symbol) {
                    Some(v) => Ok(v),
                    None => Err(EvalError::UnknownSymbol(String::from_str(symbol))),
                },
            }
        }
    }

    /// A copy of the value bound to `symbol` along the chain from this scope.
    fn get_from_map(&self, store: &Store, symbol: &str) -> (r: Option<Value>)
        ensures
            match r {
                Some(v) => lookup(store@, self.id as int, symbol@) == Some(v@),
                None => lookup(store@, self.id as int, symbol@) is None,
            },
    {
        let ghost st = store@;
        let mut cur: usize = self.id;
        loop
            invariant
                st == store@,
                lookup(st, self.id as int, symbol@) == lookup(st, cur as int, symbol@),
            decreases cur,
        {
            if cur >= store.frames.len() {
                return None;
            }
            let frame = &store.frames[cur];
            assert(st[cur as int] == frame@);
            match find_binding(&frame.bindings, symbol) {
                Some(i) => {
                    return Some(frame.bindings[i].1.duplicate());
                },
                None => {},
            }
            match frame.outer {
                Some(o) => {
                    if o < cur {
                        cur = o;
                    } else {
                        return None;
                    }
                },
                None => {
                    return None;
                },
            }
        }
    }

    /// Binds `symbol` to `value` in this scope only, overwriting any binding
    /// of the same name here.
    pub fn set(&self, store: &mut Store, symbol: &str, value: Value)
        ensures
            final(store)@ == store_set(old(store)@, self.id as nat, symbol@, value@),
    {
        let id = self.id;
        if id >= store.frames.len() {
            return;
        }
        let ghost want = store_set(old(store)@, self.id as nat, symbol@, value@);
        let found = find_binding(&store.frames[id].bindings, symbol);
        let ghost vv = value@;
        let entry = (String::from_str(symbol), value);
        let mut taken = Store { frames: Vec::new() };
        core::mem::swap(store, &mut taken);
        proof {
            use_type_invariant(&taken);
        }
        let mut frames = taken.frames;
        match found {
            Some(i) => {
                frames[id].bindings.set(i, entry);
            },
            None => {
                frames[id].bindings.push(entry);
            },
        }
        *store = Store { frames };
        assert(store@[id as int].bindings =~= want[id as int].bindings);
        assert(store@ =~= want);
    }
}

} // verus!
