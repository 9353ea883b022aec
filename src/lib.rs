//! A small Lisp: s-expression parsing, chained lexical environments kept in
//! an arena, closures, special forms and integer primitives, with every
//! evaluation step matched against a big-step specification.
pub mod expr;
pub mod value;
pub mod env;
pub mod eval;
pub mod laws;
pub mod round_trip;

pub use env::Store;
pub use eval::{apply, eval, run_line, DEFAULT_DEPTH};
pub use expr::{Expr, ParseError};
pub use value::{Closure, Env, EvalError, Function, Prim, Value};
