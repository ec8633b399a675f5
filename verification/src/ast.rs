use vstd::prelude::*;
use std::rc::Rc;
use crate::object::Object;
use crate::token::Token;

verus! {

/// An expression node. Each node owns its children; the tree is immutable
/// and read-only once the parser has produced it.
pub enum Expr {
    Assign(AssignExpr),
    Binary(BinaryExpr),
    Call(CallExpr),
    Grouping(GroupingExpr),
    Literal(LiteralExpr),
    Logical(LogicalExpr),
    Unary(UnaryExpr),
    Variable(VariableExpr),
}

pub struct AssignExpr {
    pub name: Token,
    pub value: Box<Expr>,
}

pub struct BinaryExpr {
    pub left: Box<Expr>,
    pub operator: Token,
    pub right: Box<Expr>,
}

pub struct CallExpr {
    pub callee: Box<Expr>,
    pub paren: Token,
    pub arguments: Vec<Expr>,
}

pub struct GroupingExpr {
    pub expression: Box<Expr>,
}

pub struct LiteralExpr {
    pub value: Option<Object>,
}

/// `and` / `or`, kept apart from `Binary` so evaluation can short-circuit.
pub struct LogicalExpr {
    pub left: Box<Expr>,
    pub operator: Token,
    pub right: Box<Expr>,
}

pub struct UnaryExpr {
    pub operator: Token,
    pub right: Box<Expr>,
}

pub struct VariableExpr {
    pub name: Token,
}

/// A statement node.
pub enum Stmt {
    Block(BlockStmt),
    Break(BreakStmt),
    Expression(ExpressionStmt),
    Function(FunctionStmt),
    If(IfStmt),
    Print(PrintStmt),
    Return(ReturnStmt),
    Var(VarStmt),
    While(WhileStmt),
}

pub struct BlockStmt {
    pub statements: Vec<Stmt>,
}

pub struct BreakStmt {
    pub token: Token,
}

pub struct ExpressionStmt {
    pub expression: Expr,
}

/// A function declaration. Parameters and body are shared by reference
/// count: the function value built when the declaration executes keeps
/// them alive past the declaring block.
pub struct FunctionStmt {
    pub name: Token,
    pub params: Rc<Vec<Token>>,
    pub body: Rc<Vec<Stmt>>,
}

pub struct IfStmt {
    pub condition: Expr,
    pub then_branch: Box<Stmt>,
    pub else_branch: Option<Box<Stmt>>,
}

pub struct PrintStmt {
    pub expression: Expr,
}

pub struct ReturnStmt {
    pub keyword: Token,
    pub value: Option<Expr>,
}

pub struct VarStmt {
    pub name: Token,
    pub initializer: Option<Expr>,
}

pub struct WhileStmt {
    pub condition: Expr,
    pub body: Box<Stmt>,
}

/// A literal node may carry only a number, a string, a boolean or nothing
/// (nil): the parser never embeds a callable handle or the internal
/// sentinel in the tree.
pub open spec fn lit_ok(v: Option<Object>) -> bool {
    match v {
        Some(o) => o is Num || o is Str || o is Bool || o is Nil,
        None => true,
    }
}

/// A well-formed expression: every literal it contains is one the parser
/// can produce.
pub open spec fn expr_wf(e: Expr) -> bool
    decreases e,
{
    match e {
        Expr::Assign(a) => expr_wf(*a.value),
        Expr::Binary(b) => expr_wf(*b.left) && expr_wf(*b.right),
        Expr::Call(c) => expr_wf(*c.callee) && exprs_wf(c.arguments@),
        Expr::Grouping(g) => expr_wf(*g.expression),
        Expr::Literal(l) => lit_ok(l.value),
        Expr::Logical(l) => expr_wf(*l.left) && expr_wf(*l.right),
        Expr::Unary(u) => expr_wf(*u.right),
        Expr::Variable(_) => true,
    }
}

/// `expr_wf`, over an argument list.
pub open spec fn exprs_wf(es: Seq<Expr>) -> bool
    decreases es,
{
    if es.len() == 0 {
        true
    } else {
        expr_wf(es[0]) && exprs_wf(es.drop_first())
    }
}

/// A well-formed statement: its expressions are well formed, and the two
/// control signals can only arise where their matching construct encloses
/// them — a `break` only inside a loop of the same function, a `return`
/// only inside a function body. The parser only produces statements that
/// satisfy this; the evaluator relies on it to intercept every signal at
/// its matching construct, so that neither ever surfaces at the top level.
pub open spec fn stmt_wf(s: Stmt, in_loop: bool, in_fun: bool) -> bool
    decreases s,
{
    match s {
        Stmt::Block(b) => stmts_wf(b.statements@, in_loop, in_fun),
        Stmt::Break(_) => in_loop,
        Stmt::Expression(e) => expr_wf(e.expression),
        Stmt::Function(f) => stmts_wf(f.body@, false, true),
        Stmt::If(i) => expr_wf(i.condition) && stmt_wf(*i.then_branch, in_loop, in_fun) && (match i
            .else_branch {
            Some(e) => stmt_wf(*e, in_loop, in_fun),
            None => true,
        }),
        Stmt::Print(p) => expr_wf(p.expression),
        Stmt::Return(r) => in_fun && (match r.value {
            Some(e) => expr_wf(e),
            None => true,
        }),
        Stmt::Var(v) => match v.initializer {
            Some(e) => expr_wf(e),
            None => true,
        },
        Stmt::While(w) => expr_wf(w.condition) && stmt_wf(*w.body, true, in_fun),
    }
}

/// `stmt_wf`, over a statement list.
pub open spec fn stmts_wf(ss: Seq<Stmt>, in_loop: bool, in_fun: bool) -> bool
    decreases ss,
{
    if ss.len() == 0 {
        true
    } else {
        stmt_wf(ss[0], in_loop, in_fun) && stmts_wf(ss.drop_first(), in_loop, in_fun)
    }
}

/// Each member of a well-formed statement list is well formed.
pub proof fn lemma_stmts_wf_index(ss: Seq<Stmt>, in_loop: bool, in_fun: bool, i: int)
    requires
        stmts_wf(ss, in_loop, in_fun),
        0 <= i < ss.len(),
    ensures
        stmt_wf(ss[i], in_loop, in_fun),
    decreases i,
{
    if i > 0 {
        lemma_stmts_wf_index(ss.drop_first(), in_loop, in_fun, i - 1);
    }
}

/// Appending a well-formed statement keeps a statement list well formed.
pub proof fn lemma_stmts_wf_push(ss: Seq<Stmt>, s: Stmt, in_loop: bool, in_fun: bool)
    requires
        stmts_wf(ss, in_loop, in_fun),
        stmt_wf(s, in_loop, in_fun),
    ensures
        stmts_wf(ss.push(s), in_loop, in_fun),
    decreases ss.len(),
{
    if ss.len() == 0 {
        reveal_with_fuel(stmts_wf, 2);
        assert(ss.push(s)[0] == s);
        assert(ss.push(s).drop_first() =~= Seq::<Stmt>::empty());
    } else {
        assert(ss.push(s)[0] == ss[0]);
        assert(ss.push(s).drop_first() =~= ss.drop_first().push(s));
        lemma_stmts_wf_push(ss.drop_first(), s, in_loop, in_fun);
    }
}

/// Appending a well-formed expression keeps an argument list well formed.
pub proof fn lemma_exprs_wf_push(es: Seq<Expr>, e: Expr)
    requires
        exprs_wf(es),
        expr_wf(e),
    ensures
        exprs_wf(es.push(e)),
    decreases es.len(),
{
    if es.len() == 0 {
        reveal_with_fuel(exprs_wf, 2);
        assert(es.push(e)[0] == e);
        assert(es.push(e).drop_first() =~= Seq::<Expr>::empty());
    } else {
        assert(es.push(e)[0] == es[0]);
        assert(es.push(e).drop_first() =~= es.drop_first().push(e));
        lemma_exprs_wf_push(es.drop_first(), e);
    }
}

/// Each member of a well-formed argument list is well formed.
pub proof fn lemma_exprs_wf_index(es: Seq<Expr>, i: int)
    requires
        exprs_wf(es),
        0 <= i < es.len(),
    ensures
        expr_wf(es[i]),
    decreases i,
{
    if i > 0 {
        lemma_exprs_wf_index(es.drop_first(), i - 1);
    }
}

} // verus!
