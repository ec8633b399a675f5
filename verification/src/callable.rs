use vstd::prelude::*;
use std::rc::Rc;
use crate::ast::{FunctionStmt, Stmt};
use crate::native_functions::Nativeclock;
use crate::token::Token;

verus! {

/// A user-defined function value: its declaration's name, parameters and
/// body, and the index of the scope that was current when the declaration
/// executed. That captured index — not the caller's scope — encloses each
/// call's fresh scope, which is what makes functions lexically scoped to
/// their definition site.
pub struct LoxFunction {
    pub name: Token,
    pub params: Rc<Vec<Token>>,
    pub body: Rc<Vec<Stmt>>,
    pub closure: usize,
}

impl LoxFunction {
    /// Build the function value for a declaration, capturing the given
    /// scope by index.
    pub fn new(declaration: &FunctionStmt, closure: usize) -> (f: LoxFunction)
        ensures
            f.name == declaration.name,
            f.params == declaration.params,
            f.body == declaration.body,
            f.closure == closure,
    {
        LoxFunction {
            name: declaration.name.dup(),
            params: Rc::clone(&declaration.params),
            body: Rc::clone(&declaration.body),
            closure,
        }
    }
}

/// One entry of the interpreter's callable table: the uniform invocation
/// record over native and user-defined functions. A `Object::Callable`
/// value holds an index into that table, so two entries are the same
/// function exactly when their indices are equal.
pub struct Callable {
    pub arity: usize,
    pub kind: CallableKind,
}

pub enum CallableKind {
    Native(Nativeclock),
    Function(LoxFunction),
}

} // verus!
