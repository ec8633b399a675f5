use vstd::prelude::*;
use std::rc::Rc;
use crate::ast::{
    expr_wf, exprs_wf, lemma_exprs_wf_index, lemma_stmts_wf_index, lit_ok, stmt_wf, stmts_wf, Expr,
    Stmt,
};
use crate::callable::{Callable, CallableKind, LoxFunction};
use crate::environment::{
    alist_find, chain_ok, lemma_alist_find_member, lemma_resolve_props, lookup, objects_from,
    resolve, scope_find, Environment, Scope,
};
use crate::error::{is_runtime_error, LoxResult};
use crate::native_functions::Nativeclock;
use crate::object::{
    dec_digits, num_text, num_to_text, obj_text, push_digits_u64, wrap_add, wrap_div, wrap_mul,
    wrap_sub, Object,
};
use crate::token::{Token, TokenType};

verus! {

/// A value is sound against a callable table of length `n`: a callable
/// handle points into the table, and the internal mismatch sentinel never
/// escapes into a stored or returned value.
pub open spec fn obj_ok(o: Object, n: int) -> bool {
    &&& (o matches Object::Callable(i) ==> i < n)
    &&& !(o is ArithmeticError)
}

/// Every value a scope holds is sound.
pub open spec fn scope_objs_ok(sc: Scope, n: int) -> bool {
    forall|k: int| 0 <= k < sc.values@.len() ==> obj_ok((#[trigger] sc.values@[k]).1, n)
}

/// Every value every scope holds is sound.
pub open spec fn env_objs_ok(env: Seq<Scope>, n: int) -> bool {
    forall|i: int| 0 <= i < env.len() ==> scope_objs_ok(#[trigger] env[i], n)
}

/// A callable table entry is sound against an arena of `n_scopes` scopes:
/// a native has arity 0; a user function's captured scope index is in
/// bounds, its recorded arity is its parameter count, and its body is
/// well formed as a function body.
pub open spec fn callable_ok(c: Callable, n_scopes: int) -> bool {
    match c.kind {
        CallableKind::Native(_) => c.arity == 0,
        CallableKind::Function(f) => f.closure < n_scopes && c.arity == f.params@.len()
            && stmts_wf(f.body@, false, true),
    }
}

/// The interpreter's invariant, established by `new` and preserved by
/// every step of evaluation: the scope chain is well founded, the current
/// scope index is in bounds, and every stored value and callable entry is
/// sound.
pub open spec fn wf(it: Interpreter) -> bool {
    &&& chain_ok(it.environment.scopes@)
    &&& it.current < it.environment.scopes@.len()
    &&& env_objs_ok(it.environment.scopes@, it.callables@.len() as int)
    &&& forall|j: int|
        0 <= j < it.callables@.len() ==> callable_ok(
            #[trigger] it.callables@[j],
            it.environment.scopes@.len() as int,
        )
}

/// `a` is a prefix of `b`, stated pointwise.
pub open spec fn seq_prefix<T>(a: Seq<T>, b: Seq<T>) -> bool {
    a.len() <= b.len() && forall|i: int| 0 <= i < a.len() ==> a[i] == b[i]
}

/// The value a literal node denotes: its stored value, or nil when absent.
pub open spec fn lit_value(l: Option<Object>) -> Object {
    match l {
        Some(v) => v,
        None => Object::Nil,
    }
}

/// `post` is `pre` with `name` rebound to `v` in scope `j` and nothing
/// else changed: the exact footprint of one `define` or `assign`.
pub open spec fn rebound(
    pre: Interpreter,
    post: Interpreter,
    j: int,
    name: Seq<char>,
    v: Object,
) -> bool {
    &&& post.current == pre.current
    &&& post.callables == pre.callables
    &&& post.output == pre.output
    &&& post.errors == pre.errors
    &&& 0 <= j < pre.environment.scopes@.len()
    &&& post.environment.scopes@.len() == pre.environment.scopes@.len()
    &&& forall|i: int|
        0 <= i < pre.environment.scopes@.len() && i != j ==> post.environment.scopes@[i]
            == pre.environment.scopes@[i]
    &&& post.environment.scopes@[j].enclosing == pre.environment.scopes@[j].enclosing
    &&& scope_find(post.environment.scopes@[j], name) == Some(v)
    &&& forall|nm: Seq<char>|
        nm != name ==> #[trigger] scope_find(post.environment.scopes@[j], nm) == scope_find(
            pre.environment.scopes@[j],
            nm,
        )
}

/// `post` is `pre` with exactly one line appended to the output — the
/// rendering of `v`: the exact footprint of one `print`.
pub open spec fn printed(pre: Interpreter, post: Interpreter, v: Object) -> bool {
    &&& post.environment == pre.environment
    &&& post.current == pre.current
    &&& post.callables == pre.callables
    &&& post.errors == pre.errors
    &&& post.output@.len() == pre.output@.len() + 1
    &&& seq_prefix(pre.output@, post.output@)
    &&& post.output@.last()@ == obj_text(v)
}

/// No enclosing link of an already-existing scope ever changes: parents
/// are fixed at scope creation, which is what keeps captured chains valid.
pub open spec fn parents_kept(pre: Interpreter, post: Interpreter) -> bool {
    forall|i: int|
        0 <= i < pre.environment.scopes@.len() ==> #[trigger] post.environment.scopes@[i].enclosing
            == pre.environment.scopes@[i].enclosing
}

/// Soundness of stored values survives growing the callable table.
proof fn lemma_env_objs_ok_mono(env: Seq<Scope>, n1: int, n2: int)
    requires
        env_objs_ok(env, n1),
        n1 <= n2,
    ensures
        env_objs_ok(env, n2),
{
    assert forall|i: int| 0 <= i < env.len() implies scope_objs_ok(#[trigger] env[i], n2) by {
        assert(scope_objs_ok(env[i], n1));
        assert forall|k: int| 0 <= k < env[i].values@.len() implies obj_ok(
            (#[trigger] env[i].values@[k]).1,
            n2,
        ) by {
            assert(obj_ok(env[i].values@[k].1, n1));
        }
    }
}

/// Soundness of stored values survives rebinding one name in one scope to
/// a sound value: what `define` and `assign` do.
proof fn lemma_env_objs_ok_after_update(
    pre: Seq<Scope>,
    post: Seq<Scope>,
    scope: int,
    value: Object,
    n: int,
)
    requires
        env_objs_ok(pre, n),
        obj_ok(value, n),
        0 <= scope < pre.len(),
        post.len() == pre.len(),
        forall|i: int| 0 <= i < pre.len() && i != scope ==> post[i] == pre[i],
        objects_from(pre[scope].values@, post[scope].values@, value),
    ensures
        env_objs_ok(post, n),
{
    assert forall|i: int| 0 <= i < post.len() implies scope_objs_ok(#[trigger] post[i], n) by {
        if i == scope {
            assert forall|k: int| 0 <= k < post[scope].values@.len() implies obj_ok(
                (#[trigger] post[scope].values@[k]).1,
                n,
            ) by {
                if post[scope].values@[k].1 != value {
                    let k2 = choose|k2: int|
                        0 <= k2 < pre[scope].values@.len() && (#[trigger] pre[scope].values@[k2]).1
                            == post[scope].values@[k].1;
                    assert(obj_ok(pre[scope].values@[k2].1, n));
                }
            }
        } else {
            assert(scope_objs_ok(pre[i], n));
        }
    }
}

/// Soundness of stored values survives pushing a fresh, empty scope.
proof fn lemma_env_objs_ok_after_push(pre: Seq<Scope>, post: Seq<Scope>, n: int)
    requires
        env_objs_ok(pre, n),
        post.len() == pre.len() + 1,
        forall|i: int| 0 <= i < pre.len() ==> post[i] == pre[i],
        post[pre.len() as int].values@.len() == 0,
    ensures
        env_objs_ok(post, n),
{
    assert forall|i: int| 0 <= i < post.len() implies scope_objs_ok(#[trigger] post[i], n) by {
        if i < pre.len() {
            assert(scope_objs_ok(pre[i], n));
        }
    }
}

/// What a read returns is a value some scope holds, so it is sound.
proof fn lemma_lookup_obj_ok(env: Seq<Scope>, s: int, name: Seq<char>, n: int)
    requires
        env_objs_ok(env, n),
        lookup(env, s, name) is Some,
    ensures
        lookup(env, s, name) matches Some(v) && obj_ok(v, n),
{
    lemma_resolve_props(env, s, name);
    if let Some(j) = resolve(env, s, name) {
        lemma_alist_find_member(env[j].values@, name);
        let k = choose|k: int|
            0 <= k < env[j].values@.len() && Some((#[trigger] env[j].values@[k]).1) == alist_find(
                env[j].values@,
                name,
            );
        assert(obj_ok(env[j].values@[k].1, n));
    }
}

/// A runtime error blaming the operand types of an arithmetic operator.
pub open spec fn arith_mismatch(out: Result<Object, LoxResult>, op: Token) -> bool {
    out matches Err(e) && is_runtime_error(e, op, "Operands must be numbers."@)
}

/// A runtime error blaming a fully mismatched operand pair.
pub open spec fn pair_mismatch(out: Result<Object, LoxResult>, op: Token) -> bool {
    out matches Err(e) && is_runtime_error(e, op, "Operands must be two numbers or two strings."@)
}

/// What a binary operator returns, for every pair of runtime operand
/// types: arithmetic and comparison on two numbers; `+` concatenates when
/// either operand is a string and the other is a string or a number;
/// equality is defined on two strings (textually), two booleans, two
/// callables (by identity), and nil against anything; every other pairing
/// or operator is a runtime error.
pub open spec fn binary_rel(op: Token, l: Object, r: Object, out: Result<
    Object,
    LoxResult,
>) -> bool {
    match (l, r) {
        (Object::Num(a), Object::Num(b)) => match op.ttype {
            TokenType::Plus => out == Ok::<Object, LoxResult>(Object::Num(wrap_add(a, b))),
            TokenType::Minus => out == Ok::<Object, LoxResult>(Object::Num(wrap_sub(a, b))),
            TokenType::Star => out == Ok::<Object, LoxResult>(Object::Num(wrap_mul(a, b))),
            TokenType::Slash => if b == 0 {
                out matches Err(e) && is_runtime_error(e, op, "Division by zero."@)
            } else {
                out == Ok::<Object, LoxResult>(Object::Num(wrap_div(a, b)))
            },
            TokenType::Greater => out == Ok::<Object, LoxResult>(Object::Bool(a > b)),
            TokenType::GreaterEqual => out == Ok::<Object, LoxResult>(Object::Bool(a >= b)),
            TokenType::Less => out == Ok::<Object, LoxResult>(Object::Bool(a < b)),
            TokenType::LessEqual => out == Ok::<Object, LoxResult>(Object::Bool(a <= b)),
            TokenType::Equal => out == Ok::<Object, LoxResult>(Object::Bool(a == b)),
            TokenType::BangEqual => out == Ok::<Object, LoxResult>(Object::Bool(a != b)),
            _ => out matches Err(LoxResult::Error { line, message }) && line == op.line
                && message@ == "Unknown binary operator."@,
        },
        (Object::Num(a), Object::Str(s)) => if op.ttype == TokenType::Plus {
            out matches Ok(Object::Str(t)) && t@ == num_text(a as int) + s@
        } else {
            arith_mismatch(out, op)
        },
        (Object::Str(s), Object::Num(a)) => if op.ttype == TokenType::Plus {
            out matches Ok(Object::Str(t)) && t@ == s@ + num_text(a as int)
        } else {
            arith_mismatch(out, op)
        },
        (Object::Str(s1), Object::Str(s2)) => match op.ttype {
            TokenType::Plus => out matches Ok(Object::Str(t)) && t@ == s1@ + s2@,
            TokenType::Equal => out == Ok::<Object, LoxResult>(Object::Bool(s1@ == s2@)),
            TokenType::BangEqual => out == Ok::<Object, LoxResult>(Object::Bool(s1@ != s2@)),
            _ => arith_mismatch(out, op),
        },
        (Object::Bool(x), Object::Bool(y)) => match op.ttype {
            TokenType::Equal => out == Ok::<Object, LoxResult>(Object::Bool(x == y)),
            TokenType::BangEqual => out == Ok::<Object, LoxResult>(Object::Bool(x != y)),
            _ => arith_mismatch(out, op),
        },
        (Object::Callable(i), Object::Callable(j)) => match op.ttype {
            TokenType::Equal => out == Ok::<Object, LoxResult>(Object::Bool(i == j)),
            TokenType::BangEqual => out == Ok::<Object, LoxResult>(Object::Bool(i != j)),
            _ => arith_mismatch(out, op),
        },
        (Object::Nil, Object::Nil) => match op.ttype {
            TokenType::Equal => out == Ok::<Object, LoxResult>(Object::Bool(true)),
            TokenType::BangEqual => out == Ok::<Object, LoxResult>(Object::Bool(false)),
            _ => arith_mismatch(out, op),
        },
        (Object::Nil, _) => match op.ttype {
            TokenType::Equal => out == Ok::<Object, LoxResult>(Object::Bool(false)),
            TokenType::BangEqual => out == Ok::<Object, LoxResult>(Object::Bool(true)),
            _ => arith_mismatch(out, op),
        },
        (_, Object::Nil) => match op.ttype {
            TokenType::Equal => out == Ok::<Object, LoxResult>(Object::Bool(false)),
            TokenType::BangEqual => out == Ok::<Object, LoxResult>(Object::Bool(true)),
            _ => pair_mismatch(out, op),
        },
        _ => pair_mismatch(out, op),
    }
}

/// What a unary operator returns: `-` negates a number (wrapping on the
/// one overflowing case) and is a type error otherwise; `!` returns the
/// negated truthiness of any value.
pub open spec fn unary_rel(op: Token, v: Object, out: Result<Object, LoxResult>) -> bool {
    match op.ttype {
        TokenType::Minus => match v {
            Object::Num(n) => out == Ok::<Object, LoxResult>(Object::Num(wrap_sub(0, n))),
            _ => out matches Err(e) && is_runtime_error(e, op, "Operand must be a number."@),
        },
        TokenType::Bang => out == Ok::<Object, LoxResult>(Object::Bool(!v.truthy())),
        _ => out matches Err(LoxResult::Error { line, message }) && line == op.line && message@
            == "Unreachable code."@,
    }
}

/// The message of an arity mismatch, naming expected and actual count.
pub open spec fn arity_message(expected: nat, got: nat) -> Seq<char> {
    "Expected "@ + dec_digits(expected) + " arguments but got "@ + dec_digits(got) + "."@
}

/// Evaluate one binary operator on two already-evaluated operands.
fn eval_binary(op: &Token, left: Object, right: Object) -> (r: Result<Object, LoxResult>)
    ensures
        binary_rel(*op, left, right, r),
{
    proof {
        reveal_strlit("Division by zero.");
        reveal_strlit("Unknown binary operator.");
        reveal_strlit("Operands must be numbers.");
        reveal_strlit("Operands must be two numbers or two strings.");
    }
    match (left, right) {
        (Object::Num(a), Object::Num(b)) => match op.token_type() {
            TokenType::Plus => Ok(Object::Num(a.wrapping_add(b))),
            TokenType::Minus => Ok(Object::Num(a.wrapping_sub(b))),
            TokenType::Star => Ok(Object::Num(a.wrapping_mul(b))),
            TokenType::Slash => {
                if b == 0 {
                    Err(LoxResult::runtime_error(op, "Division by zero."))
                } else {
                    proof {
                        if !(a == i64::MIN && b == -1) {
                            crate::object::lemma_checked_div_some(a, b);
                        }
                    }
                    match a.checked_div(b) {
                        Some(q) => Ok(Object::Num(q)),
                        None => Ok(Object::Num(i64::MIN)),
                    }
                }
            },
            TokenType::Greater => Ok(Object::Bool(a > b)),
            TokenType::GreaterEqual => Ok(Object::Bool(a >= b)),
            TokenType::Less => Ok(Object::Bool(a < b)),
            TokenType::LessEqual => Ok(Object::Bool(a <= b)),
            TokenType::Equal => Ok(Object::Bool(a == b)),
            TokenType::BangEqual => Ok(Object::Bool(a != b)),
            _ => Err(LoxResult::error(op.line, "Unknown binary operator.")),
        },
        (Object::Num(a), Object::Str(s)) => match op.token_type() {
            TokenType::Plus => Ok(Object::Str(num_to_text(a).concat(s.as_str()))),
            _ => Err(LoxResult::runtime_error(op, "Operands must be numbers.")),
        },
        (Object::Str(s), Object::Num(a)) => match op.token_type() {
            TokenType::Plus => Ok(Object::Str(s.concat(num_to_text(a).as_str()))),
            _ => Err(LoxResult::runtime_error(op, "Operands must be numbers.")),
        },
        (Object::Str(s1), Object::Str(s2)) => match op.token_type() {
            TokenType::Plus => Ok(Object::Str(s1.concat(s2.as_str()))),
            TokenType::Equal => Ok(Object::Bool(s1 == s2)),
            TokenType::BangEqual => Ok(Object::Bool(!(s1 == s2))),
            _ => Err(LoxResult::runtime_error(op, "Operands must be numbers.")),
        },
        (Object::Bool(x), Object::Bool(y)) => match op.token_type() {
            TokenType::Equal => Ok(Object::Bool(x == y)),
            TokenType::BangEqual => Ok(Object::Bool(x != y)),
            _ => Err(LoxResult::runtime_error(op, "Operands must be numbers.")),
        },
        (Object::Callable(i), Object::Callable(j)) => match op.token_type() {
            TokenType::Equal => Ok(Object::Bool(i == j)),
            TokenType::BangEqual => Ok(Object::Bool(i != j)),
            _ => Err(LoxResult::runtime_error(op, "Operands must be numbers.")),
        },
        (Object::Nil, Object::Nil) => match op.token_type() {
            TokenType::Equal => Ok(Object::Bool(true)),
            TokenType::BangEqual => Ok(Object::Bool(false)),
            _ => Err(LoxResult::runtime_error(op, "Operands must be numbers.")),
        },
        (Object::Nil, _) => match op.token_type() {
            TokenType::Equal => Ok(Object::Bool(false)),
            TokenType::BangEqual => Ok(Object::Bool(true)),
            _ => Err(LoxResult::runtime_error(op, "Operands must be numbers.")),
        },
        (_, Object::Nil) => match op.token_type() {
            TokenType::Equal => Ok(Object::Bool(false)),
            TokenType::BangEqual => Ok(Object::Bool(true)),
            _ => Err(LoxResult::runtime_error(op, "Operands must be two numbers or two strings.")),
        },
        _ => Err(LoxResult::runtime_error(op, "Operands must be two numbers or two strings.")),
    }
}

/// Evaluate one unary operator on an already-evaluated operand.
fn eval_unary(op: &Token, v: Object) -> (r: Result<Object, LoxResult>)
    ensures
        unary_rel(*op, v, r),
{
    proof {
        reveal_strlit("Operand must be a number.");
        reveal_strlit("Unreachable code.");
    }
    match op.token_type() {
        TokenType::Minus => match v {
            Object::Num(n) => Ok(Object::Num((0 as i64).wrapping_sub(n))),
            _ => Err(LoxResult::runtime_error(op, "Operand must be a number.")),
        },
        TokenType::Bang => Ok(Object::Bool(!v.is_truthy())),
        _ => Err(LoxResult::error(op.line, "Unreachable code.")),
    }
}

/// The fuel every evaluation step draws on. One unit pays for one
/// evaluator step (one node visited, one loop iteration, one call), so
/// this bound is beyond reach of any program that could finish anyway.
pub const EVAL_BUDGET: u64 = 0xFFFF_FFFF_FFFF_FFFF;

/// Draw one unit of fuel, or stop evaluation when none is left.
fn take_fuel(fuel: &mut u64) -> (r: Result<(), LoxResult>)
    ensures
        match r {
            Ok(_) => *old(fuel) > 0 && *final(fuel) == *old(fuel) - 1,
            Err(e) => *old(fuel) == 0 && *final(fuel) == 0 && e is SystemError,
        },
{
    if *fuel == 0 {
        Err(LoxResult::system_error("Execution budget exhausted."))
    } else {
        *fuel = *fuel - 1;
        Ok(())
    }
}

/// The evaluator: it executes statements against the current scope of its
/// arena, evaluates expressions recursively, creates and restores scopes
/// around blocks and calls, collects what `print` writes, and intercepts
/// the two control signals at their matching constructs.
pub struct Interpreter {
    pub environment: Environment,
    pub current: usize,
    pub callables: Vec<Callable>,
    pub output: Vec<String>,
    pub errors: Vec<LoxResult>,
}

impl Interpreter {
    /// A fresh interpreter: one global scope, no callables, no output.
    pub fn new() -> (it: Interpreter)
        ensures
            wf(it),
            it.environment.scopes@.len() == 1,
            it.current == 0,
            it.callables@.len() == 0,
            it.output@.len() == 0,
            it.errors@.len() == 0,
    {
        Interpreter {
            environment: Environment::new(),
            current: 0,
            callables: Vec::new(),
            output: Vec::new(),
            errors: Vec::new(),
        }
    }

    /// Register the host's clock as a named callable in the global scope;
    /// the one supported extension point for host capabilities.
    pub fn define_native(&mut self, name: &String, native: Nativeclock)
        requires
            wf(*old(self)),
        ensures
            wf(*final(self)),
            final(self).current == old(self).current,
            final(self).environment.scopes@.len() == old(self).environment.scopes@.len(),
            final(self).callables@.len() == old(self).callables@.len() + 1,
            lookup(final(self).environment.scopes@, 0, name@) == Some(
                Object::Callable(old(self).callables@.len() as usize),
            ),
            final(self).output@ == old(self).output@,
    {
        let idx = self.callables.len();
        self.callables.push(Callable { arity: 0, kind: CallableKind::Native(native) });
        proof {
            lemma_env_objs_ok_mono(
                self.environment.scopes@,
                old(self).callables@.len() as int,
                self.callables@.len() as int,
            );
        }
        self.environment.define(0, name, Object::Callable(idx));
        proof {
            lemma_env_objs_ok_after_update(
                old(self).environment.scopes@,
                self.environment.scopes@,
                0,
                Object::Callable(idx as nat as usize),
                self.callables@.len() as int,
            );
            assert(resolve(self.environment.scopes@, 0, name@) == Some(0int));
        }
    }

    /// Decide a call: the callee must be a callable handle and the
    /// argument count must equal its arity; the result is the index of
    /// the callable to invoke.
    fn check_call(&self, callee: &Object, argc: usize, paren: &Token) -> (r: Result<
        usize,
        LoxResult,
    >)
        requires
            obj_ok(*callee, self.callables@.len() as int),
        ensures
            match *callee {
                Object::Callable(i) => if argc == self.callables@[i as int].arity {
                    r == Ok::<usize, LoxResult>(i)
                } else {
                    r matches Err(e) && is_runtime_error(
                        e,
                        *paren,
                        arity_message(self.callables@[i as int].arity as nat, argc as nat),
                    )
                },
                _ => r matches Err(e) && is_runtime_error(
                    e,
                    *paren,
                    "Can only call functions and classes."@,
                ),
            },
    {
        match callee {
            Object::Callable(i) => {
                let expected = self.callables[*i].arity;
                if argc == expected {
                    Ok(*i)
                } else {
                    proof {
                        reveal_strlit("Expected ");
                        reveal_strlit(" arguments but got ");
                        reveal_strlit(".");
                    }
                    let mut msg = String::new();
                    msg.append("Expected ");
                    push_digits_u64(&mut msg, expected as u64);
                    msg.append(" arguments but got ");
                    push_digits_u64(&mut msg, argc as u64);
                    msg.append(".");
                    proof {
                        assert(msg@ =~= arity_message(expected as nat, argc as nat));
                    }
                    Err(LoxResult::runtime_error(paren, msg.as_str()))
                }
            },
            _ => {
                proof {
                    reveal_strlit("Can only call functions and classes.");
                }
                Err(LoxResult::runtime_error(paren, "Can only call functions and classes."))
            },
        }
    }

    /// Evaluate an expression against the current scope. Evaluation may
    /// define nothing, but it may mutate bindings (assignment), create
    /// scopes and callables (calls), and append output (calls that print).
    /// The current scope is restored on every path; the result value is
    /// sound; and no control signal ever escapes an expression.
    #[verifier::loop_isolation(false)]
    fn evaluate(&mut self, expr: &Expr, fuel: &mut u64) -> (r: Result<Object, LoxResult>)
        requires
            wf(*old(self)),
            expr_wf(*expr),
        ensures
            wf(*final(self)),
            final(self).current == old(self).current,
            old(self).environment.scopes@.len() <= final(self).environment.scopes@.len(),
            old(self).callables@.len() <= final(self).callables@.len(),
            seq_prefix(old(self).output@, final(self).output@),
            parents_kept(*old(self), *final(self)),
            final(self).errors@ == old(self).errors@,
            *final(fuel) <= *old(fuel),
            *old(fuel) == 0 ==> (r matches Err(e) && e is SystemError),
            (r matches Ok(o) ==> obj_ok(o, final(self).callables@.len() as int)),
            (r matches Err(e) ==> !(e is Break) && !(e is ReturnValue) && !(e is ParseError)),
            (*expr is Literal && *old(fuel) > 0 ==> *final(self) == *old(self) && *final(fuel)
                == *old(fuel) - 1 && (match (*expr)->Literal_0.value {
                Some(v) => r == Ok::<Object, LoxResult>(v),
                None => r == Ok::<Object, LoxResult>(Object::Nil),
            })),
            (*expr is Variable && *old(fuel) > 0 ==> *final(self) == *old(self) && *final(fuel)
                == *old(fuel) - 1 && (match lookup(
                old(self).environment.scopes@,
                old(self).current as int,
                (*expr)->Variable_0.name.lexeme@,
            ) {
                Some(val) => r == Ok::<Object, LoxResult>(val),
                None => r matches Err(e) && is_runtime_error(
                    e,
                    (*expr)->Variable_0.name,
                    "Undefined variable "@ + (*expr)->Variable_0.name.lexeme@ + "."@,
                ),
            })),
            *expr is Grouping && (*(*expr)->Grouping_0.expression) is Literal && *old(fuel)
                >= 2 ==> (*final(self) == *old(self) && *final(fuel) == *old(fuel) - 2 && r
                == Ok::<Object, LoxResult>(
                lit_value((*(*expr)->Grouping_0.expression)->Literal_0.value),
            )),
            *expr is Unary && (*(*expr)->Unary_0.right) is Literal && *old(fuel) >= 2 ==> (
            *final(self) == *old(self) && *final(fuel) == *old(fuel) - 2 && unary_rel(
                (*expr)->Unary_0.operator,
                lit_value((*(*expr)->Unary_0.right)->Literal_0.value),
                r,
            )),
            *expr is Binary && (*(*expr)->Binary_0.left) is Literal && (*(*expr)->Binary_0.right)
                is Literal && *old(fuel) >= 3 ==> (*final(self) == *old(self) && *final(fuel)
                == *old(fuel) - 3 && binary_rel(
                (*expr)->Binary_0.operator,
                lit_value((*(*expr)->Binary_0.left)->Literal_0.value),
                lit_value((*(*expr)->Binary_0.right)->Literal_0.value),
                r,
            )),
            *expr is Logical && (*(*expr)->Logical_0.left) is Literal && *old(fuel) >= 2 ==> ({
                let lv = lit_value((*(*expr)->Logical_0.left)->Literal_0.value);
                &&& ((*expr)->Logical_0.operator.ttype == TokenType::Or && lv.truthy()
                    ==> *final(self) == *old(self) && r == Ok::<Object, LoxResult>(lv))
                &&& ((*expr)->Logical_0.operator.ttype != TokenType::Or && !lv.truthy()
                    ==> *final(self) == *old(self) && r == Ok::<Object, LoxResult>(lv))
            }),
            *expr is Assign && (*(*expr)->Assign_0.value) is Literal && *old(fuel) >= 2 ==> ({
                let v = lit_value((*(*expr)->Assign_0.value)->Literal_0.value);
                let nm = (*expr)->Assign_0.name;
                &&& (resolve(old(self).environment.scopes@, old(self).current as int, nm.lexeme@)
                    matches Some(j) ==> rebound(*old(self), *final(self), j, nm.lexeme@, v) && r
                    == Ok::<Object, LoxResult>(v))
                &&& (resolve(old(self).environment.scopes@, old(self).current as int, nm.lexeme@)
                    is None ==> *final(self) == *old(self) && (r matches Err(e) && is_runtime_error(
                    e,
                    nm,
                    "Undefined variable "@ + nm.lexeme@ + " ."@,
                )))
            }),
            *expr is Call && (*(*expr)->Call_0.callee) is Literal && (*expr)->Call_0.arguments@.len()
                == 0 && *old(fuel) >= 2 ==> (*final(self) == *old(self) && (r matches Err(e)
                && is_runtime_error(
                e,
                (*expr)->Call_0.paren,
                "Can only call functions and classes."@,
            ))),
        decreases *old(fuel),
    {
        if let Err(e) = take_fuel(fuel) {
            return Err(e);
        }
        match expr {
            Expr::Literal(l) => match &l.value {
                Some(v) => Ok(v.dup()),
                None => Ok(Object::Nil),
            },
            Expr::Grouping(g) => {
                let ghost pre = *self;
                let ghost fuel1 = *fuel;
                let res = self.evaluate(&g.expression, fuel);
                proof {
                    assert((*expr)->Grouping_0 == *g);
                    if (*g.expression) is Literal && fuel1 > 0 {
                        assert(*self == pre);
                        assert(res == Ok::<Object, LoxResult>(
                            lit_value((*g.expression)->Literal_0.value),
                        ));
                    }
                }
                res
            },
            Expr::Unary(u) => {
                let v = self.evaluate(&u.right, fuel)?;
                eval_unary(&u.operator, v)
            },
            Expr::Binary(b) => {
                let l = self.evaluate(&b.left, fuel)?;
                let r = self.evaluate(&b.right, fuel)?;
                eval_binary(&b.operator, l, r)
            },
            Expr::Logical(l) => {
                let left = self.evaluate(&l.left, fuel)?;
                if l.operator.is(&TokenType::Or) {
                    if left.is_truthy() {
                        return Ok(left);
                    }
                } else {
                    if !left.is_truthy() {
                        return Ok(left);
                    }
                }
                self.evaluate(&l.right, fuel)
            },
            Expr::Variable(v) => {
                let r = self.environment.get(self.current, &v.name);
                proof {
                    if lookup(self.environment.scopes@, self.current as int, v.name.lexeme@)
                        is Some {
                        lemma_lookup_obj_ok(
                            self.environment.scopes@,
                            self.current as int,
                            v.name.lexeme@,
                            self.callables@.len() as int,
                        );
                    }
                }
                r
            },
            Expr::Assign(a) => {
                let v = self.evaluate(&a.value, fuel)?;
                let ghost pre = *self;
                match self.environment.assign(self.current, &a.name, v.dup()) {
                    Ok(_) => {
                        proof {
                            lemma_resolve_props(
                                pre.environment.scopes@,
                                pre.current as int,
                                a.name.lexeme@,
                            );
                            lemma_env_objs_ok_after_update(
                                pre.environment.scopes@,
                                self.environment.scopes@,
                                resolve(
                                    pre.environment.scopes@,
                                    pre.current as int,
                                    a.name.lexeme@,
                                )->Some_0,
                                v,
                                self.callables@.len() as int,
                            );
                        }
                        Ok(v)
                    },
                    Err(e) => {
                        proof {
                            if (*a.value) is Literal && *old(fuel) >= 2 {
                                assert(self.environment.scopes =~= old(self).environment.scopes);
                                assert(*self == *old(self));
                            }
                        }
                        Err(e)
                    },
                }
            },
            Expr::Call(c) => {
                let callee = self.evaluate(&c.callee, fuel)?;
                proof {
                    if (*c.callee) is Literal && *old(fuel) >= 2 {
                        assert(expr_wf(*c.callee));
                        assert(lit_ok((*c.callee)->Literal_0.value));
                        assert(callee == lit_value((*c.callee)->Literal_0.value));
                        assert(!(callee is Callable));
                    }
                }
                let ghost loop_pre = *self;
                let mut args: Vec<Object> = Vec::new();
                let n = c.arguments.len();
                let mut i: usize = 0;
                while i < n
                    invariant
                        wf(*self),
                        n == c.arguments@.len(),
                        i <= n,
                        i == 0 ==> *self == loop_pre,
                        self.current == old(self).current,
                        old(self).environment.scopes@.len() <= self.environment.scopes@.len(),
                        old(self).callables@.len() <= self.callables@.len(),
                        seq_prefix(old(self).output@, self.output@),
                parents_kept(*old(self), *self),
                        parents_kept(*old(self), *self),
                        self.errors@ == old(self).errors@,
                        *fuel < *old(fuel),
                        args@.len() == i,
                        forall|k: int|
                            0 <= k < i ==> obj_ok(
                                #[trigger] args@[k],
                                self.callables@.len() as int,
                            ),
                        obj_ok(callee, self.callables@.len() as int),
                    decreases *fuel,
                {
                    if let Err(e) = take_fuel(fuel) {
                        return Err(e);
                    }
                    proof {
                        lemma_exprs_wf_index(c.arguments@, i as int);
                    }
                    let a = self.evaluate(&c.arguments[i], fuel)?;
                    args.push(a);
                    i = i + 1;
                }
                let idx = self.check_call(&callee, args.len(), &c.paren)?;
                self.call_function(idx, args, fuel)
            },
        }
    }

    /// Evaluate one expression against the current scope, with a fresh
    /// step budget: the entry point for a host that evaluates expressions
    /// directly rather than running statements.
    pub fn evaluate_expression(&mut self, expr: &Expr) -> (r: Result<Object, LoxResult>)
        requires
            wf(*old(self)),
            expr_wf(*expr),
        ensures
            wf(*final(self)),
            final(self).current == old(self).current,
            seq_prefix(old(self).output@, final(self).output@),
            parents_kept(*old(self), *final(self)),
            (r matches Ok(o) ==> obj_ok(o, final(self).callables@.len() as int)),
            (r matches Err(e) ==> !(e is Break) && !(e is ReturnValue) && !(e is ParseError)),
            (*expr is Literal ==> *final(self) == *old(self) && (match (
            *expr)->Literal_0.value {
                Some(v) => r == Ok::<Object, LoxResult>(v),
                None => r == Ok::<Object, LoxResult>(Object::Nil),
            })),
            (*expr is Variable ==> *final(self) == *old(self) && (match lookup(
                old(self).environment.scopes@,
                old(self).current as int,
                (*expr)->Variable_0.name.lexeme@,
            ) {
                Some(val) => r == Ok::<Object, LoxResult>(val),
                None => r matches Err(e) && is_runtime_error(
                    e,
                    (*expr)->Variable_0.name,
                    "Undefined variable "@ + (*expr)->Variable_0.name.lexeme@ + "."@,
                ),
            })),
            *expr is Grouping && (*(*expr)->Grouping_0.expression) is Literal ==> (*final(self)
                == *old(self) && r == Ok::<Object, LoxResult>(
                lit_value((*(*expr)->Grouping_0.expression)->Literal_0.value),
            )),
            *expr is Unary && (*(*expr)->Unary_0.right) is Literal ==> (*final(self) == *old(self)
                && unary_rel(
                (*expr)->Unary_0.operator,
                lit_value((*(*expr)->Unary_0.right)->Literal_0.value),
                r,
            )),
            *expr is Binary && (*(*expr)->Binary_0.left) is Literal && (*(*expr)->Binary_0.right)
                is Literal ==> (*final(self) == *old(self) && binary_rel(
                (*expr)->Binary_0.operator,
                lit_value((*(*expr)->Binary_0.left)->Literal_0.value),
                lit_value((*(*expr)->Binary_0.right)->Literal_0.value),
                r,
            )),
            *expr is Logical && (*(*expr)->Logical_0.left) is Literal ==> ({
                let lv = lit_value((*(*expr)->Logical_0.left)->Literal_0.value);
                &&& ((*expr)->Logical_0.operator.ttype == TokenType::Or && lv.truthy()
                    ==> *final(self) == *old(self) && r == Ok::<Object, LoxResult>(lv))
                &&& ((*expr)->Logical_0.operator.ttype != TokenType::Or && !lv.truthy()
                    ==> *final(self) == *old(self) && r == Ok::<Object, LoxResult>(lv))
            }),
            *expr is Assign && (*(*expr)->Assign_0.value) is Literal ==> ({
                let v = lit_value((*(*expr)->Assign_0.value)->Literal_0.value);
                let nm = (*expr)->Assign_0.name;
                &&& (resolve(old(self).environment.scopes@, old(self).current as int, nm.lexeme@)
                    matches Some(j) ==> rebound(*old(self), *final(self), j, nm.lexeme@, v) && r
                    == Ok::<Object, LoxResult>(v))
                &&& (resolve(old(self).environment.scopes@, old(self).current as int, nm.lexeme@)
                    is None ==> *final(self) == *old(self) && (r matches Err(e) && is_runtime_error(
                    e,
                    nm,
                    "Undefined variable "@ + nm.lexeme@ + " ."@,
                )))
            }),
            *expr is Call && (*(*expr)->Call_0.callee) is Literal && (*expr)->Call_0.arguments@.len()
                == 0 ==> (*final(self) == *old(self) && (r matches Err(e) && is_runtime_error(
                e,
                (*expr)->Call_0.paren,
                "Can only call functions and classes."@,
            ))),
    {
        let mut fuel: u64 = EVAL_BUDGET;
        self.evaluate(expr, &mut fuel)
    }

    /// Invoke the callable at `idx` on already-evaluated arguments. A
    /// native runs its host function; a user function runs its body in a
    /// fresh scope enclosing its captured scope — not the caller's — with
    /// parameters bound positionally, and a `ReturnValue` signal from the
    /// body becomes the call's result, `Nil` when the body finishes
    /// without one.
    fn call_function(&mut self, idx: usize, args: Vec<Object>, fuel: &mut u64) -> (r: Result<
        Object,
        LoxResult,
    >)
        requires
            wf(*old(self)),
            idx < old(self).callables@.len(),
            args@.len() == old(self).callables@[idx as int].arity,
            forall|k: int|
                0 <= k < args@.len() ==> obj_ok(
                    #[trigger] args@[k],
                    old(self).callables@.len() as int,
                ),
        ensures
            wf(*final(self)),
            final(self).current == old(self).current,
            old(self).environment.scopes@.len() <= final(self).environment.scopes@.len(),
            old(self).callables@.len() <= final(self).callables@.len(),
            seq_prefix(old(self).output@, final(self).output@),
            parents_kept(*old(self), *final(self)),
            final(self).errors@ == old(self).errors@,
            *final(fuel) <= *old(fuel),
            *old(fuel) == 0 ==> (r matches Err(e) && e is SystemError),
            (r matches Ok(o) ==> obj_ok(o, final(self).callables@.len() as int)),
            (r matches Err(e) ==> !(e is Break) && !(e is ReturnValue) && !(e is ParseError)),
            old(self).callables@[idx as int].kind is Native && *old(fuel) > 0 ==> (*final(self)
                == *old(self) && ((r matches Ok(o) && o is Num) || (r matches Err(e) && e
                is SystemError))),
            old(self).callables@[idx as int].kind is Function && *old(fuel) > 0
                ==> (final(self).environment.scopes@.len()
                > old(self).environment.scopes@.len()
                && final(self).environment.scopes@[old(self).environment.scopes@.len() as int].enclosing
                == Some((old(self).callables@[idx as int].kind)->Function_0.closure)),
        decreases *old(fuel),
    {
        if let Err(e) = take_fuel(fuel) {
            return Err(e);
        }
        let is_native = match &self.callables[idx].kind {
            CallableKind::Native(_) => true,
            CallableKind::Function(_) => false,
        };
        if is_native {
            let clock = Nativeclock;
            return clock.call();
        }
        let (params, body, closure) = match &self.callables[idx].kind {
            CallableKind::Function(f) => (Rc::clone(&f.params), Rc::clone(&f.body), f.closure),
            CallableKind::Native(_) => {
                return Err(LoxResult::system_error("Unreachable code."));
            },
        };
        let scope = self.environment.new_with_enclosing(closure);
        proof {
            lemma_env_objs_ok_after_push(
                old(self).environment.scopes@,
                self.environment.scopes@,
                self.callables@.len() as int,
            );
        }
        let n = args.len();
        let mut i: usize = 0;
        while i < n
            invariant
                wf(*self),
                i <= n,
                n == args@.len(),
                self.callables@ == old(self).callables@,
                self.current == old(self).current,
                old(self).environment.scopes@.len() < self.environment.scopes@.len(),
                scope < self.environment.scopes@.len(),
                scope == old(self).environment.scopes@.len(),
                self.environment.scopes@[scope as int].enclosing == Some(closure),
                self.output@ == old(self).output@,
                parents_kept(*old(self), *self),
                self.errors@ == old(self).errors@,
                n == params@.len(),
                forall|k: int|
                    0 <= k < args@.len() ==> obj_ok(
                        #[trigger] args@[k],
                        self.callables@.len() as int,
                    ),
            decreases n - i,
        {
            let pvec: &Vec<Token> = &params;
            let ghost pre = *self;
            self.environment.define(scope, &pvec[i].lexeme, args[i].dup());
            proof {
                lemma_env_objs_ok_after_update(
                    pre.environment.scopes@,
                    self.environment.scopes@,
                    scope as int,
                    args@[i as int],
                    self.callables@.len() as int,
                );
            }
            i = i + 1;
        }
        let stmts: &Vec<Stmt> = &body;
        let res = self.execute_block(stmts, scope, fuel, Ghost(false), Ghost(true));
        match res {
            Err(LoxResult::ReturnValue { value }) => Ok(value),
            Err(e) => Err(e),
            Ok(_) => Ok(Object::Nil),
        }
    }

    /// Execute one statement against the current scope.
    #[verifier::loop_isolation(false)]
    fn execute(
        &mut self,
        stmt: &Stmt,
        fuel: &mut u64,
        Ghost(in_loop): Ghost<bool>,
        Ghost(in_fun): Ghost<bool>,
    ) -> (r: Result<(), LoxResult>)
        requires
            wf(*old(self)),
            stmt_wf(*stmt, in_loop, in_fun),
        ensures
            wf(*final(self)),
            final(self).current == old(self).current,
            old(self).environment.scopes@.len() <= final(self).environment.scopes@.len(),
            old(self).callables@.len() <= final(self).callables@.len(),
            seq_prefix(old(self).output@, final(self).output@),
            parents_kept(*old(self), *final(self)),
            final(self).errors@ == old(self).errors@,
            *final(fuel) <= *old(fuel),
            *old(fuel) == 0 ==> (r matches Err(e) && e is SystemError),
            (r matches Err(e) ==> !(e is ParseError) && (e is Break ==> in_loop) && (e
                is ReturnValue ==> in_fun) && (e matches LoxResult::ReturnValue { value } ==> obj_ok(
                value,
                final(self).callables@.len() as int,
            ))),
            *stmt is Break && *old(fuel) > 0 ==> (*final(self) == *old(self) && (r matches Err(e)
                && e is Break)),
            *stmt is Return && (*stmt)->Return_0.value is None && *old(fuel) > 0 ==> (*final(self)
                == *old(self) && (r matches Err(e) && e matches LoxResult::ReturnValue { value }
                && value == Object::Nil)),
            *stmt is Return && (*stmt)->Return_0.value is Some && ((*stmt)->Return_0.value).unwrap()
                is Literal && *old(fuel) >= 2 ==> (*final(self) == *old(self) && (r matches Err(e)
                && e matches LoxResult::ReturnValue { value } && value == lit_value(
                ((*stmt)->Return_0.value).unwrap()->Literal_0.value,
            ))),
            *stmt is Var && (*stmt)->Var_0.initializer is None && *old(fuel) > 0 ==> (rebound(
                *old(self),
                *final(self),
                old(self).current as int,
                (*stmt)->Var_0.name.lexeme@,
                Object::Nil,
            ) && r is Ok),
            *stmt is Var && (*stmt)->Var_0.initializer is Some && ((*stmt)->Var_0.initializer)
                .unwrap() is Literal && *old(fuel) >= 2 ==> (rebound(
                *old(self),
                *final(self),
                old(self).current as int,
                (*stmt)->Var_0.name.lexeme@,
                lit_value(((*stmt)->Var_0.initializer).unwrap()->Literal_0.value),
            ) && r is Ok),
            *stmt is Print && (*stmt)->Print_0.expression is Literal && *old(fuel) >= 2 ==> (
            printed(
                *old(self),
                *final(self),
                lit_value(((*stmt)->Print_0.expression)->Literal_0.value),
            ) && r is Ok),
            *stmt is Expression && (*stmt)->Expression_0.expression is Literal && *old(fuel) >= 2
                ==> (*final(self) == *old(self) && r is Ok),
            *stmt is If && (*stmt)->If_0.condition is Literal && !lit_value(
                ((*stmt)->If_0.condition)->Literal_0.value,
            ).truthy() && (*stmt)->If_0.else_branch is None && *old(fuel) >= 2 ==> (*final(self)
                == *old(self) && r is Ok),
            *stmt is While && (*stmt)->While_0.condition is Literal && !lit_value(
                ((*stmt)->While_0.condition)->Literal_0.value,
            ).truthy() && *old(fuel) >= 3 ==> (*final(self) == *old(self) && r is Ok),
            *stmt is Function && *old(fuel) > 0 ==> ({
                let fs = (*stmt)->Function_0;
                let idx = old(self).callables@.len() as int;
                &&& r is Ok
                &&& final(self).callables@.len() == idx + 1
                &&& (final(self).callables@[idx].kind matches CallableKind::Function(g) && g.name
                    == fs.name && g.params == fs.params && g.body == fs.body && g.closure == old(
                    self,
                ).current)
                &&& final(self).callables@[idx].arity == fs.params@.len()
                &&& forall|k: int|
                    0 <= k < idx ==> final(self).callables@[k] == old(self).callables@[k]
                &&& final(self).current == old(self).current
                &&& final(self).output == old(self).output
                &&& final(self).errors == old(self).errors
                &&& final(self).environment.scopes@.len() == old(self).environment.scopes@.len()
                &&& forall|i: int|
                    0 <= i < old(self).environment.scopes@.len() && i != old(self).current as int
                        ==> final(self).environment.scopes@[i] == old(self).environment.scopes@[i]
                &&& final(self).environment.scopes@[old(self).current as int].enclosing == old(
                    self,
                ).environment.scopes@[old(self).current as int].enclosing
                &&& scope_find(
                    final(self).environment.scopes@[old(self).current as int],
                    fs.name.lexeme@,
                ) == Some(Object::Callable(idx as usize))
                &&& forall|nm: Seq<char>|
                    nm != fs.name.lexeme@ ==> #[trigger] scope_find(
                        final(self).environment.scopes@[old(self).current as int],
                        nm,
                    ) == scope_find(
                        old(self).environment.scopes@[old(self).current as int],
                        nm,
                    )
            }),
        decreases *old(fuel),
    {
        if let Err(e) = take_fuel(fuel) {
            return Err(e);
        }
        match stmt {
            Stmt::Expression(s) => {
                let _ = self.evaluate(&s.expression, fuel)?;
                Ok(())
            },
            Stmt::Print(s) => {
                let v = self.evaluate(&s.expression, fuel)?;
                let line = v.to_text();
                self.output.push(line);
                Ok(())
            },
            Stmt::Var(s) => {
                let value = match &s.initializer {
                    Some(e) => self.evaluate(e, fuel)?,
                    None => Object::Nil,
                };
                let ghost pre = *self;
                self.environment.define(self.current, &s.name.lexeme, value.dup());
                proof {
                    lemma_env_objs_ok_after_update(
                        pre.environment.scopes@,
                        self.environment.scopes@,
                        pre.current as int,
                        value,
                        self.callables@.len() as int,
                    );
                }
                Ok(())
            },
            Stmt::Block(s) => {
                let scope = self.environment.new_with_enclosing(self.current);
                proof {
                    lemma_env_objs_ok_after_push(
                        old(self).environment.scopes@,
                        self.environment.scopes@,
                        self.callables@.len() as int,
                    );
                }
                self.execute_block(&s.statements, scope, fuel, Ghost(in_loop), Ghost(in_fun))
            },
            Stmt::If(s) => {
                let c = self.evaluate(&s.condition, fuel)?;
                if c.is_truthy() {
                    self.execute(&s.then_branch, fuel, Ghost(in_loop), Ghost(in_fun))
                } else {
                    match &s.else_branch {
                        Some(e) => self.execute(e, fuel, Ghost(in_loop), Ghost(in_fun)),
                        None => Ok(()),
                    }
                }
            },
            Stmt::While(s) => {
                loop
                    invariant
                        wf(*self),
                        (s.condition is Literal && !lit_value(s.condition->Literal_0.value).truthy()
                            && *old(fuel) >= 3) ==> (*self == *old(self) && *fuel == *old(fuel)
                            - 1),
                        self.current == old(self).current,
                        old(self).environment.scopes@.len() <= self.environment.scopes@.len(),
                        old(self).callables@.len() <= self.callables@.len(),
                        seq_prefix(old(self).output@, self.output@),
                parents_kept(*old(self), *self),
                        parents_kept(*old(self), *self),
                        self.errors@ == old(self).errors@,
                        *fuel <= *old(fuel),
                    decreases *fuel,
                {
                    if let Err(e) = take_fuel(fuel) {
                        return Err(e);
                    }
                    let c = self.evaluate(&s.condition, fuel)?;
                    if !c.is_truthy() {
                        return Ok(());
                    }
                    match self.execute(&s.body, fuel, Ghost(true), Ghost(in_fun)) {
                        Ok(_) => {},
                        Err(LoxResult::Break) => {
                            return Ok(());
                        },
                        Err(e) => {
                            return Err(e);
                        },
                    }
                }
            },
            Stmt::Function(s) => {
                let f = LoxFunction::new(s, self.current);
                let pvec: &Vec<Token> = &f.params;
                let arity = pvec.len();
                let idx = self.callables.len();
                self.callables.push(Callable { arity, kind: CallableKind::Function(f) });
                proof {
                    lemma_env_objs_ok_mono(
                        self.environment.scopes@,
                        old(self).callables@.len() as int,
                        self.callables@.len() as int,
                    );
                }
                let ghost pre = *self;
                self.environment.define(self.current, &s.name.lexeme, Object::Callable(idx));
                proof {
                    lemma_env_objs_ok_after_update(
                        pre.environment.scopes@,
                        self.environment.scopes@,
                        pre.current as int,
                        Object::Callable(idx),
                        self.callables@.len() as int,
                    );
                }
                Ok(())
            },
            Stmt::Return(s) => {
                let value = match &s.value {
                    Some(e) => self.evaluate(e, fuel)?,
                    None => Object::Nil,
                };
                Err(LoxResult::ReturnValue { value })
            },
            Stmt::Break(_) => Err(LoxResult::Break),
        }
    }

    /// Execute a statement list against the given scope, then restore the
    /// prior current scope on every exit path — normal completion,
    /// propagated error, or propagated signal.
    #[verifier::loop_isolation(false)]
    fn execute_block(
        &mut self,
        statements: &Vec<Stmt>,
        scope: usize,
        fuel: &mut u64,
        Ghost(in_loop): Ghost<bool>,
        Ghost(in_fun): Ghost<bool>,
    ) -> (r: Result<(), LoxResult>)
        requires
            wf(*old(self)),
            scope < old(self).environment.scopes@.len(),
            stmts_wf(statements@, in_loop, in_fun),
        ensures
            wf(*final(self)),
            final(self).current == old(self).current,
            old(self).environment.scopes@.len() <= final(self).environment.scopes@.len(),
            old(self).callables@.len() <= final(self).callables@.len(),
            seq_prefix(old(self).output@, final(self).output@),
            parents_kept(*old(self), *final(self)),
            final(self).errors@ == old(self).errors@,
            *final(fuel) <= *old(fuel),
            *old(fuel) == 0 ==> (r matches Err(e) && e is SystemError),
            (r matches Err(e) ==> !(e is ParseError) && (e is Break ==> in_loop) && (e
                is ReturnValue ==> in_fun) && (e matches LoxResult::ReturnValue { value } ==> obj_ok(
                value,
                final(self).callables@.len() as int,
            ))),
        decreases *old(fuel),
    {
        if let Err(e) = take_fuel(fuel) {
            return Err(e);
        }
        let prev = self.current;
        self.current = scope;
        let n = statements.len();
        let mut i: usize = 0;
        while i < n
            invariant
                wf(*self),
                i <= n,
                n == statements@.len(),
                self.current == scope,
                scope < self.environment.scopes@.len(),
                prev == old(self).current,
                prev < self.environment.scopes@.len(),
                old(self).environment.scopes@.len() <= self.environment.scopes@.len(),
                old(self).callables@.len() <= self.callables@.len(),
                seq_prefix(old(self).output@, self.output@),
                parents_kept(*old(self), *self),
                self.errors@ == old(self).errors@,
                *fuel <= *old(fuel),
            decreases *fuel,
        {
            if let Err(e) = take_fuel(fuel) {
                self.current = prev;
                return Err(e);
            }
            proof {
                lemma_stmts_wf_index(statements@, in_loop, in_fun, i as int);
            }
            match self.execute(&statements[i], fuel, Ghost(in_loop), Ghost(in_fun)) {
                Ok(_) => {},
                Err(e) => {
                    self.current = prev;
                    return Err(e);
                },
            }
            i = i + 1;
        }
        self.current = prev;
        Ok(())
    }

    /// Execute a statement sequence in order against the global scope,
    /// stopping at the first uncaught runtime error, which is kept under
    /// `errors` for the host to report. The result says whether execution
    /// completed without such an error.
    pub fn interpret(&mut self, statements: &Vec<Stmt>) -> (r: bool)
        requires
            wf(*old(self)),
            stmts_wf(statements@, false, false),
        ensures
            wf(*final(self)),
            final(self).current == old(self).current,
            seq_prefix(old(self).output@, final(self).output@),
            parents_kept(*old(self), *final(self)),
            seq_prefix(old(self).errors@, final(self).errors@),
            r == (final(self).errors@.len() == old(self).errors@.len()),
            final(self).errors@.len() <= old(self).errors@.len() + 1,
            final(self).errors@.len() == old(self).errors@.len() + 1 ==> ({
                let e = final(self).errors@.last();
                &&& !(e is Break)
                &&& !(e is ReturnValue)
                &&& !(e is ParseError)
            }),
            statements@.len() == 0 ==> (*final(self) == *old(self) && r),
            statements@.len() >= 1 && statements@[0] is Print
                && (statements@[0])->Print_0.expression is Literal ==> (final(self).output@.len()
                > old(self).output@.len() && final(self).output@[old(self).output@.len() as int]@
                == obj_text(lit_value(((statements@[0])->Print_0.expression)->Literal_0.value))),
    {
        let mut fuel: u64 = EVAL_BUDGET;
        let n = statements.len();
        let mut i: usize = 0;
        while i < n
            invariant
                wf(*self),
                i <= n,
                n == statements@.len(),
                self.current == old(self).current,
                old(self).environment.scopes@.len() <= self.environment.scopes@.len(),
                stmts_wf(statements@, false, false),
                seq_prefix(old(self).output@, self.output@),
                parents_kept(*old(self), *self),
                self.errors@ == old(self).errors@,
                i == 0 ==> *self == *old(self),
                (statements@.len() >= 1 && statements@[0] is Print
                    && (statements@[0])->Print_0.expression is Literal && i >= 1) ==> (
                self.output@.len() > old(self).output@.len() && self.output@[old(
                    self,
                ).output@.len() as int]@ == obj_text(
                    lit_value(((statements@[0])->Print_0.expression)->Literal_0.value),
                )),
                i == 0 ==> fuel == EVAL_BUDGET,
            decreases n - i,
        {
            proof {
                lemma_stmts_wf_index(statements@, false, false, i as int);
            }
            match self.execute(&statements[i], &mut fuel, Ghost(false), Ghost(false)) {
                Ok(_) => {},
                Err(e) => {
                    self.errors.push(e);
                    return false;
                },
            }
            i = i + 1;
        }
        true
    }
}

} // verus!
