use vstd::prelude::*;
use std::rc::Rc;
use crate::ast::{
    expr_wf, exprs_wf, lemma_exprs_wf_push, lemma_stmts_wf_push, lit_ok, stmt_wf, stmts_wf,
    AssignExpr, BinaryExpr, BlockStmt, BreakStmt, CallExpr, Expr, ExpressionStmt, FunctionStmt,
    GroupingExpr, IfStmt, LiteralExpr, LogicalExpr, PrintStmt, ReturnStmt, Stmt, UnaryExpr,
    VarStmt, VariableExpr, WhileStmt,
};
use crate::error::{is_parse_error, LoxResult};
use crate::object::Object;
use crate::token::{Token, TokenType};

verus! {

/// A token stream the parser accepts: nonempty, terminated by the
/// end-of-input sentinel, and carrying only literals a scanner can
/// produce.
pub open spec fn tokens_ok(ts: Seq<Token>) -> bool {
    &&& ts.len() >= 1
    &&& ts[ts.len() - 1].ttype == TokenType::Eof
    &&& forall|i: int| 0 <= i < ts.len() ==> lit_ok((#[trigger] ts[i]).literal)
}

/// The binary operators of one precedence level: 6 is equality, 5 is
/// comparison, 4 is term (`-` `+`), 3 is factor (`/` `*`), so that a level
/// with a smaller number binds tighter.
pub open spec fn binary_op_at(lvl: int, t: TokenType) -> bool {
    if lvl == 6 {
        t == TokenType::BangEqual || t == TokenType::Equal
    } else if lvl == 5 {
        t == TokenType::Greater || t == TokenType::GreaterEqual || t == TokenType::Less || t
            == TokenType::LessEqual
    } else if lvl == 4 {
        t == TokenType::Minus || t == TokenType::Plus
    } else if lvl == 3 {
        t == TokenType::Slash || t == TokenType::Star
    } else {
        false
    }
}

/// A logical (`or` / `and`) node whose operands split the token span at
/// its operator: the left child at the same level, the right one level
/// down, so the operator folds left-deep.
pub open spec fn logical_shape(toks: Seq<Token>, lo: int, hi: int, lvl: int, e: Expr) -> bool
    decreases e, lvl, 0int,
{
    e matches Expr::Logical(b) && (exists|k: int|
        lo < k < hi - 1 && #[trigger] toks[k].ttype == (if lvl == 8 {
            TokenType::Or
        } else {
            TokenType::And
        }) && b.operator == toks[k] && is_parse(toks, lo, k, lvl, *b.left) && is_parse(
            toks,
            k + 1,
            hi,
            lvl - 1,
            *b.right,
        ))
}

/// A binary node whose operands split the token span at its operator, the
/// operator being one of this level's.
pub open spec fn binary_shape(toks: Seq<Token>, lo: int, hi: int, lvl: int, e: Expr) -> bool
    decreases e, lvl, 0int,
{
    e matches Expr::Binary(b) && (exists|k: int|
        lo < k < hi - 1 && binary_op_at(lvl, #[trigger] toks[k].ttype) && b.operator == toks[k]
            && is_parse(toks, lo, k, lvl, *b.left) && is_parse(toks, k + 1, hi, lvl - 1, *b.right))
}

/// A call node: a callee at call level, its open parenthesis, a
/// comma-separated argument list, and the closing parenthesis the node
/// remembers.
pub open spec fn call_shape(toks: Seq<Token>, lo: int, hi: int, e: Expr) -> bool
    decreases e, 1int, 0int,
{
    e matches Expr::Call(c) && (exists|k: int|
        lo < k < hi - 1 && #[trigger] toks[k].ttype == TokenType::LeftParen && c.paren == toks[hi
            - 1] && toks[hi - 1].ttype == TokenType::RightParen && is_parse(
            toks,
            lo,
            k,
            1,
            *c.callee,
        ) && args_parse(toks, k + 1, hi - 1, c.arguments@))
}

/// The expression grammar as a relation: `e` is a parse of the tokens
/// `toks[lo..hi)` at precedence level `lvl`. The levels are the grammar's
/// productions, descending — 9 assignment, 8 `or`, 7 `and`, 6 equality,
/// 5 comparison, 4 term, 3 factor, 2 unary, 1 call, 0 primary — and each
/// level admits a node of its own shape or anything from the next level
/// down, which is what makes `*` bind tighter than `+` and both tighter
/// than the comparisons. A binary or logical node's right child sits one
/// level down while its left child stays at the same level: trees fold
/// left-deep, so the operators associate to the left; a unary node's
/// operand is unary again, so `!` and `-` associate to the right; an
/// assignment's value is an assignment again, so `=` associates to the
/// right and its target is a single variable token.
pub open spec fn is_parse(toks: Seq<Token>, lo: int, hi: int, lvl: int, e: Expr) -> bool
    decreases e, lvl, 1int,
{
    if lvl == 9 {
        ||| (e matches Expr::Assign(a) && {
            &&& hi - lo >= 3
            &&& toks[lo].ttype == TokenType::Identifier
            &&& a.name == toks[lo]
            &&& toks[lo + 1].ttype == TokenType::Assign
            &&& is_parse(toks, lo + 2, hi, 9, *a.value)
        })
        ||| is_parse(toks, lo, hi, 8, e)
    } else if lvl == 8 || lvl == 7 {
        ||| logical_shape(toks, lo, hi, lvl, e)
        ||| is_parse(toks, lo, hi, lvl - 1, e)
    } else if 3 <= lvl <= 6 {
        ||| binary_shape(toks, lo, hi, lvl, e)
        ||| is_parse(toks, lo, hi, lvl - 1, e)
    } else if lvl == 2 {
        ||| (e matches Expr::Unary(u) && {
            &&& hi - lo >= 2
            &&& u.operator == toks[lo]
            &&& (toks[lo].ttype == TokenType::Bang || toks[lo].ttype == TokenType::Minus)
            &&& is_parse(toks, lo + 1, hi, 2, *u.right)
        })
        ||| is_parse(toks, lo, hi, 1, e)
    } else if lvl == 1 {
        ||| call_shape(toks, lo, hi, e)
        ||| is_parse(toks, lo, hi, 0, e)
    } else {
        ||| (e matches Expr::Literal(l) && {
            &&& hi == lo + 1
            &&& toks[lo].ttype == TokenType::False
            &&& l.value == Some(Object::Bool(false))
        })
        ||| (e matches Expr::Literal(l) && {
            &&& hi == lo + 1
            &&& toks[lo].ttype == TokenType::True
            &&& l.value == Some(Object::Bool(true))
        })
        ||| (e matches Expr::Literal(l) && {
            &&& hi == lo + 1
            &&& toks[lo].ttype == TokenType::Nil
            &&& l.value == Some(Object::Nil)
        })
        ||| (e matches Expr::Literal(l) && {
            &&& hi == lo + 1
            &&& (toks[lo].ttype == TokenType::Number || toks[lo].ttype == TokenType::String)
            &&& l.value == toks[lo].literal
        })
        ||| (e matches Expr::Variable(v) && {
            &&& hi == lo + 1
            &&& toks[lo].ttype == TokenType::Identifier
            &&& v.name == toks[lo]
        })
        ||| (e matches Expr::Grouping(g) && {
            &&& hi - lo >= 3
            &&& toks[lo].ttype == TokenType::LeftParen
            &&& toks[hi - 1].ttype == TokenType::RightParen
            &&& is_parse(toks, lo + 1, hi - 1, 9, *g.expression)
        })
    }
}

/// A comma-separated argument list: the expressions `es` are parses of
/// `toks[lo..hi)`, each at assignment level, in order, with one comma
/// token between neighbours.
pub open spec fn args_parse(toks: Seq<Token>, lo: int, hi: int, es: Seq<Expr>) -> bool
    decreases es, 9int, 1int,
{
    if es.len() == 0 {
        lo == hi
    } else if es.len() == 1 {
        is_parse(toks, lo, hi, 9, es[0])
    } else {
        args_split(toks, lo, hi, es)
    }
}

/// A non-trivial argument list splits at the comma after its first
/// argument.
pub open spec fn args_split(toks: Seq<Token>, lo: int, hi: int, es: Seq<Expr>) -> bool
    decreases es, 9int, 0int,
{
    es.len() >= 2 && (exists|k: int|
        lo < k < hi && #[trigger] toks[k].ttype == TokenType::Comma && is_parse(
            toks,
            lo,
            k,
            9,
            es[0],
        ) && args_parse(toks, k + 1, hi, es.drop_first()))
}

/// Folding one more operator onto a left-deep binary tree keeps it a parse
/// at its level.
proof fn lemma_binary_fold(toks: Seq<Token>, lo: int, k: int, hi: int, lvl: int, e: Expr)
    requires
        3 <= lvl <= 6,
        lo < k < hi - 1,
        e matches Expr::Binary(b) && is_parse(toks, lo, k, lvl, *b.left) && b.operator == toks[k]
            && binary_op_at(lvl, toks[k].ttype) && is_parse(toks, k + 1, hi, lvl - 1, *b.right),
    ensures
        is_parse(toks, lo, hi, lvl, e),
{
    assert(binary_shape(toks, lo, hi, lvl, e));
}

/// Folding one more `or` / `and` onto a left-deep logical tree keeps it a
/// parse at its level.
proof fn lemma_logical_fold(toks: Seq<Token>, lo: int, k: int, hi: int, lvl: int, e: Expr)
    requires
        lvl == 8 || lvl == 7,
        lo < k < hi - 1,
        e matches Expr::Logical(b) && is_parse(toks, lo, k, lvl, *b.left) && b.operator == toks[k]
            && toks[k].ttype == (if lvl == 8 {
            TokenType::Or
        } else {
            TokenType::And
        }) && is_parse(toks, k + 1, hi, lvl - 1, *b.right),
    ensures
        is_parse(toks, lo, hi, lvl, e),
{
    assert(logical_shape(toks, lo, hi, lvl, e));
}

/// Wrapping one more argument-list application around a parsed callee
/// keeps it a parse at call level.
proof fn lemma_call_fold(toks: Seq<Token>, lo: int, k: int, hi: int, e: Expr)
    requires
        lo < k < hi - 1,
        e matches Expr::Call(c) && is_parse(toks, lo, k, 1, *c.callee) && toks[k].ttype
            == TokenType::LeftParen && c.paren == toks[hi - 1] && toks[hi - 1].ttype
            == TokenType::RightParen && args_parse(toks, k + 1, hi - 1, c.arguments@),
    ensures
        is_parse(toks, lo, hi, 1, e),
{
    assert(call_shape(toks, lo, hi, e));
}

/// One more leading argument and its comma extend an argument-list parse.
proof fn lemma_args_cons(toks: Seq<Token>, lo: int, k: int, hi: int, es: Seq<Expr>)
    requires
        es.len() >= 2,
        lo < k < hi,
        is_parse(toks, lo, k, 9, es[0]),
        toks[k].ttype == TokenType::Comma,
        args_parse(toks, k + 1, hi, es.drop_first()),
    ensures
        args_parse(toks, lo, hi, es),
{
    assert(args_split(toks, lo, hi, es));
}

/// A `while` statement: keyword, parenthesized condition, body.
pub open spec fn while_shape(toks: Seq<Token>, lo: int, hi: int, s: Stmt) -> bool
    decreases s, 0int, 0int,
{
    s matches Stmt::While(w) && toks[lo].ttype == TokenType::While && toks[lo + 1].ttype
        == TokenType::LeftParen && (exists|k: int|
        lo + 2 < k < hi && #[trigger] toks[k].ttype == TokenType::RightParen && is_parse(
            toks,
            lo + 2,
            k,
            9,
            w.condition,
        ) && stmt_parse(toks, k + 1, hi, *w.body))
}

/// An `if` statement: keyword, parenthesized condition, a then branch, and
/// an `else` branch or none.
pub open spec fn if_shape(toks: Seq<Token>, lo: int, hi: int, s: Stmt) -> bool
    decreases s, 0int, 0int,
{
    s matches Stmt::If(i) && toks[lo].ttype == TokenType::If && toks[lo + 1].ttype
        == TokenType::LeftParen && {
        ||| (i.else_branch is None && (exists|k: int|
            lo + 2 < k < hi && #[trigger] toks[k].ttype == TokenType::RightParen && is_parse(
                toks,
                lo + 2,
                k,
                9,
                i.condition,
            ) && stmt_parse(toks, k + 1, hi, *i.then_branch)))
        ||| (i.else_branch matches Some(b) && (exists|k: int, m: int|
            lo + 2 < k < m < hi && #[trigger] toks[k].ttype == TokenType::RightParen
                && #[trigger] toks[m].ttype == TokenType::Else && is_parse(
                toks,
                lo + 2,
                k,
                9,
                i.condition,
            ) && stmt_parse(toks, k + 1, m, *i.then_branch) && stmt_parse(toks, m + 1, hi, *b)))
    }
}

/// A function declaration: keyword, name, parenthesized parameter names,
/// braced body.
pub open spec fn fun_shape(toks: Seq<Token>, lo: int, hi: int, s: Stmt) -> bool
    decreases s, 0int, 0int,
{
    s matches Stmt::Function(f) && toks[lo].ttype == TokenType::Fun && toks[lo + 1].ttype
        == TokenType::Identifier && f.name == toks[lo + 1] && toks[lo + 2].ttype
        == TokenType::LeftParen && toks[hi - 1].ttype == TokenType::RightBrace && (exists|k: int|
        lo + 2 < k < hi - 1 && #[trigger] toks[k].ttype == TokenType::RightParen && params_parse(
            toks,
            lo + 3,
            k,
            f.params@,
        ) && toks[k + 1].ttype == TokenType::LeftBrace && stmts_parse(toks, k + 2, hi - 1, f.body@))
}

/// A comma-separated parameter list: one identifier token per parameter.
pub open spec fn params_parse(toks: Seq<Token>, lo: int, hi: int, ps: Seq<Token>) -> bool
    decreases ps, 0int, 0int,
{
    if ps.len() == 0 {
        lo == hi
    } else if ps.len() == 1 {
        hi == lo + 1 && toks[lo].ttype == TokenType::Identifier && ps[0] == toks[lo]
    } else {
        toks[lo].ttype == TokenType::Identifier && ps[0] == toks[lo] && toks[lo + 1].ttype
            == TokenType::Comma && params_parse(toks, lo + 2, hi, ps.drop_first())
    }
}

/// The statement grammar as a relation: `s` is a parse of `toks[lo..hi)`.
pub open spec fn stmt_parse(toks: Seq<Token>, lo: int, hi: int, s: Stmt) -> bool
    decreases s, 0int, 1int,
{
    match s {
        Stmt::Expression(es) => hi - lo >= 2 && toks[hi - 1].ttype == TokenType::SemiColon
            && is_parse(toks, lo, hi - 1, 9, es.expression),
        Stmt::Print(p) => hi - lo >= 3 && toks[lo].ttype == TokenType::Print && toks[hi - 1].ttype
            == TokenType::SemiColon && is_parse(toks, lo + 1, hi - 1, 9, p.expression),
        Stmt::Var(v) => toks[lo].ttype == TokenType::Var && toks[lo + 1].ttype
            == TokenType::Identifier && v.name == toks[lo + 1] && toks[hi - 1].ttype
            == TokenType::SemiColon && (match v.initializer {
            None => hi == lo + 3,
            Some(e) => hi - lo >= 5 && toks[lo + 2].ttype == TokenType::Assign && is_parse(
                toks,
                lo + 3,
                hi - 1,
                9,
                e,
            ),
        }),
        Stmt::Block(b) => hi - lo >= 2 && toks[lo].ttype == TokenType::LeftBrace && toks[hi
            - 1].ttype == TokenType::RightBrace && stmts_parse(toks, lo + 1, hi - 1, b.statements@),
        Stmt::If(_) => if_shape(toks, lo, hi, s),
        Stmt::While(_) => while_shape(toks, lo, hi, s),
        Stmt::Function(_) => fun_shape(toks, lo, hi, s),
        Stmt::Return(r) => toks[lo].ttype == TokenType::Return && r.keyword == toks[lo] && toks[hi
            - 1].ttype == TokenType::SemiColon && (match r.value {
            None => hi == lo + 2,
            Some(e) => hi - lo >= 3 && is_parse(toks, lo + 1, hi - 1, 9, e),
        }),
        Stmt::Break(b) => hi == lo + 2 && toks[lo].ttype == TokenType::Break && b.token == toks[lo]
            && toks[lo + 1].ttype == TokenType::SemiColon,
    }
}

/// A statement sequence tiles its token span: each statement parses one
/// contiguous piece, in order, leaving nothing over.
pub open spec fn stmts_parse(toks: Seq<Token>, lo: int, hi: int, ss: Seq<Stmt>) -> bool
    decreases ss, 0int, 1int,
{
    if ss.len() == 0 {
        lo == hi
    } else {
        stmts_split(toks, lo, hi, ss)
    }
}

/// A non-empty statement sequence splits before its last statement.
pub open spec fn stmts_split(toks: Seq<Token>, lo: int, hi: int, ss: Seq<Stmt>) -> bool
    decreases ss, 0int, 0int,
{
    ss.len() >= 1 && (exists|k: int|
        #![trigger toks[k]]
        lo <= k < hi && stmts_parse(toks, lo, k, ss.drop_last()) && stmt_parse(
            toks,
            k,
            hi,
            ss.last(),
        ))
}

/// Appending one more parsed statement extends a tiled statement sequence.
proof fn lemma_stmts_parse_snoc(
    toks: Seq<Token>,
    lo: int,
    mid: int,
    hi: int,
    ss: Seq<Stmt>,
    s: Stmt,
)
    requires
        lo <= mid < hi,
        stmts_parse(toks, lo, mid, ss),
        stmt_parse(toks, mid, hi, s),
    ensures
        stmts_parse(toks, lo, hi, ss.push(s)),
{
    let ts = ss.push(s);
    assert(ts.drop_last() =~= ss);
    assert(ts.last() == s);
    assert(stmts_split(toks, lo, hi, ts)) by {
        // mention toks[mid], the split witness, so the quantifier can find it
        assert(toks[mid] == toks[mid]);
        assert(lo <= mid < hi && stmts_parse(toks, lo, mid, ts.drop_last()) && stmt_parse(
            toks,
            mid,
            hi,
            ts.last(),
        ));
    }
}

/// Introduce a `while` parse from its pieces.
proof fn lemma_while_intro(toks: Seq<Token>, lo: int, k: int, hi: int, s: Stmt)
    requires
        lo + 2 < k < hi,
        toks[lo].ttype == TokenType::While,
        toks[lo + 1].ttype == TokenType::LeftParen,
        toks[k].ttype == TokenType::RightParen,
        s matches Stmt::While(w) && is_parse(toks, lo + 2, k, 9, w.condition) && stmt_parse(
            toks,
            k + 1,
            hi,
            *w.body,
        ),
    ensures
        stmt_parse(toks, lo, hi, s),
{
    assert(while_shape(toks, lo, hi, s));
}

/// Introduce an `if` parse without an `else` from its pieces.
proof fn lemma_if_intro(toks: Seq<Token>, lo: int, k: int, hi: int, s: Stmt)
    requires
        lo + 2 < k < hi,
        toks[lo].ttype == TokenType::If,
        toks[lo + 1].ttype == TokenType::LeftParen,
        toks[k].ttype == TokenType::RightParen,
        s matches Stmt::If(i) && i.else_branch is None && is_parse(toks, lo + 2, k, 9, i.condition)
            && stmt_parse(toks, k + 1, hi, *i.then_branch),
    ensures
        stmt_parse(toks, lo, hi, s),
{
    assert(if_shape(toks, lo, hi, s));
}

/// Introduce an `if` parse with an `else` from its pieces.
proof fn lemma_if_else_intro(toks: Seq<Token>, lo: int, k: int, m: int, hi: int, s: Stmt)
    requires
        lo + 2 < k < m < hi,
        toks[lo].ttype == TokenType::If,
        toks[lo + 1].ttype == TokenType::LeftParen,
        toks[k].ttype == TokenType::RightParen,
        toks[m].ttype == TokenType::Else,
        s matches Stmt::If(i) && is_parse(toks, lo + 2, k, 9, i.condition) && stmt_parse(
            toks,
            k + 1,
            m,
            *i.then_branch,
        ) && (i.else_branch matches Some(b) && stmt_parse(toks, m + 1, hi, *b)),
    ensures
        stmt_parse(toks, lo, hi, s),
{
    assert(if_shape(toks, lo, hi, s));
}

/// Introduce a function-declaration parse from its pieces.
proof fn lemma_fun_intro(toks: Seq<Token>, lo: int, k: int, hi: int, s: Stmt)
    requires
        lo + 2 < k < hi - 1,
        toks[lo].ttype == TokenType::Fun,
        toks[lo + 1].ttype == TokenType::Identifier,
        toks[lo + 2].ttype == TokenType::LeftParen,
        toks[k].ttype == TokenType::RightParen,
        toks[k + 1].ttype == TokenType::LeftBrace,
        toks[hi - 1].ttype == TokenType::RightBrace,
        s matches Stmt::Function(f) && f.name == toks[lo + 1] && params_parse(
            toks,
            lo + 3,
            k,
            f.params@,
        ) && stmts_parse(toks, k + 2, hi - 1, f.body@),
    ensures
        stmt_parse(toks, lo, hi, s),
{
    assert(fun_shape(toks, lo, hi, s));
}

/// A variable node parses, at any level, exactly one identifier token:
/// inverting the relation down to the primary level.
pub proof fn lemma_variable_span(toks: Seq<Token>, lo: int, hi: int, lvl: int, e: Expr)
    requires
        0 <= lvl <= 9,
        e is Variable,
        is_parse(toks, lo, hi, lvl, e),
    ensures
        hi == lo + 1,
        toks[lo].ttype == TokenType::Identifier,
        e matches Expr::Variable(v) && v.name == toks[lo],
    decreases lvl,
{
    if lvl == 8 || lvl == 7 {
        assert(!logical_shape(toks, lo, hi, lvl, e));
    } else if 3 <= lvl <= 6 {
        assert(!binary_shape(toks, lo, hi, lvl, e));
    } else if lvl == 1 {
        assert(!call_shape(toks, lo, hi, e));
    }
    if lvl > 0 {
        lemma_variable_span(toks, lo, hi, lvl - 1, e);
    }
}

/// The recursive-descent parser: a token stream, a cursor into it, and the
/// two nesting flags that decide where `break` and `return` are legal.
pub struct Parser {
    pub tokens: Vec<Token>,
    pub current: usize,
    pub in_loop: bool,
    pub in_fun: bool,
}

/// The parser's invariant: the stream is acceptable and the cursor rests
/// on a token (at worst the sentinel).
pub open spec fn parser_wf(p: Parser) -> bool {
    tokens_ok(p.tokens@) && p.current < p.tokens@.len()
}

/// The cursor rests on the end-of-input sentinel.
pub open spec fn at_eof(p: Parser) -> bool {
    p.tokens@[p.current as int].ttype == TokenType::Eof
}

/// The keywords that can begin a statement or declaration: where
/// panic-mode recovery may stop.
pub open spec fn statement_start(t: TokenType) -> bool {
    ||| t == TokenType::Class
    ||| t == TokenType::Fun
    ||| t == TokenType::Var
    ||| t == TokenType::For
    ||| t == TokenType::If
    ||| t == TokenType::While
    ||| t == TokenType::Print
    ||| t == TokenType::Return
}

/// Where recovery leaves the cursor: at the end-of-input sentinel, just
/// past a semicolon, or in front of a keyword that can begin a statement.
pub open spec fn at_statement_boundary(p: Parser) -> bool {
    ||| at_eof(p)
    ||| (p.current >= 1 && p.tokens@[p.current - 1].ttype == TokenType::SemiColon)
    ||| statement_start(p.tokens@[p.current as int].ttype)
}

impl Parser {
    pub fn new(tokens: Vec<Token>) -> (p: Parser)
        requires
            tokens_ok(tokens@),
        ensures
            parser_wf(p),
            p.tokens@ == tokens@,
            p.current == 0,
            !p.in_loop,
            !p.in_fun,
    {
        Parser { tokens, current: 0, in_loop: false, in_fun: false }
    }

    fn is_at_end(&self) -> (r: bool)
        requires
            parser_wf(*self),
        ensures
            r == at_eof(*self),
    {
        self.tokens[self.current].is(&TokenType::Eof)
    }

    fn peek(&self) -> (t: &Token)
        requires
            parser_wf(*self),
        ensures
            *t == self.tokens@[self.current as int],
    {
        &self.tokens[self.current]
    }

    /// A copy of the most recently consumed token.
    fn previous_token(&self) -> (t: Token)
        requires
            parser_wf(*self),
            self.current >= 1,
        ensures
            t == self.tokens@[self.current - 1],
    {
        self.tokens[self.current - 1].dup()
    }

    /// Move past the current token, unless it is the sentinel, which is
    /// never consumed.
    fn advance(&mut self)
        requires
            parser_wf(*old(self)),
        ensures
            parser_wf(*final(self)),
            final(self).tokens@ == old(self).tokens@,
            final(self).in_loop == old(self).in_loop,
            final(self).in_fun == old(self).in_fun,
            final(self).current == if at_eof(*old(self)) {
                old(self).current as int
            } else {
                old(self).current + 1
            },
    {
        let n = self.tokens.len();
        if !self.is_at_end() {
            self.current = self.current + 1;
        }
    }

    /// Whether the current token has the given kind; the sentinel matches
    /// nothing.
    fn check(&self, ttype: &TokenType) -> (r: bool)
        requires
            parser_wf(*self),
        ensures
            r == (!at_eof(*self) && self.tokens@[self.current as int].ttype == *ttype),
    {
        if self.is_at_end() {
            return false;
        }
        self.tokens[self.current].is(ttype)
    }

    /// Consume the current token when its kind is one of `types`.
    fn match_tokens(&mut self, types: &[TokenType]) -> (r: bool)
        requires
            parser_wf(*old(self)),
        ensures
            parser_wf(*final(self)),
            final(self).tokens@ == old(self).tokens@,
            final(self).in_loop == old(self).in_loop,
            final(self).in_fun == old(self).in_fun,
            r ==> !at_eof(*old(self)) && final(self).current == old(self).current + 1 && (exists|
                k: int,
            |
                0 <= k < types@.len() && types@[k] == old(
                    self,
                ).tokens@[old(self).current as int].ttype),
            !r ==> final(self).current == old(self).current && (at_eof(*old(self)) || (forall|
                k: int,
            |
                0 <= k < types@.len() ==> types@[k] != old(
                    self,
                ).tokens@[old(self).current as int].ttype)),
    {
        let n = types.len();
        let mut k: usize = 0;
        while k < n
            invariant
                parser_wf(*self),
                *self == *old(self),
                k <= n,
                n == types@.len(),
                at_eof(*self) || (forall|j: int|
                    0 <= j < k ==> types@[j] != self.tokens@[self.current as int].ttype),
            decreases n - k,
        {
            if self.check(&types[k]) {
                self.advance();
                return true;
            }
            k = k + 1;
        }
        false
    }

    /// Consume the current token when it has the given kind; otherwise a
    /// syntax error tagged with the current token and the given message.
    fn consume(&mut self, ttype: TokenType, message: &str) -> (r: Result<Token, LoxResult>)
        requires
            parser_wf(*old(self)),
        ensures
            parser_wf(*final(self)),
            final(self).tokens@ == old(self).tokens@,
            final(self).in_loop == old(self).in_loop,
            final(self).in_fun == old(self).in_fun,
            match r {
                Ok(t) => !at_eof(*old(self)) && t == old(self).tokens@[old(self).current as int]
                    && t.ttype == ttype && final(self).current == old(self).current + 1,
                Err(e) => final(self).current == old(self).current && is_parse_error(
                    e,
                    old(self).tokens@[old(self).current as int],
                    message@,
                ),
            },
    {
        if self.check(&ttype) {
            let t = self.tokens[self.current].dup();
            self.advance();
            Ok(t)
        } else {
            Err(LoxResult::parse_error(&self.tokens[self.current], message))
        }
    }

    /// Panic-mode recovery: discard tokens until just past a semicolon or
    /// in front of a keyword that can begin a statement, so that one parse
    /// pass can surface several independent errors.
    fn synchronize(&mut self)
        requires
            parser_wf(*old(self)),
        ensures
            parser_wf(*final(self)),
            final(self).tokens@ == old(self).tokens@,
            final(self).in_loop == old(self).in_loop,
            final(self).in_fun == old(self).in_fun,
            old(self).current <= final(self).current,
            !at_eof(*old(self)) ==> old(self).current < final(self).current,
            at_statement_boundary(*final(self)),
    {
        self.advance();
        while !self.is_at_end()
            invariant
                parser_wf(*self),
                self.tokens@ == old(self).tokens@,
                self.in_loop == old(self).in_loop,
                self.in_fun == old(self).in_fun,
                old(self).current <= self.current,
                !at_eof(*old(self)) ==> old(self).current < self.current,
            decreases self.tokens@.len() - self.current,
        {
            if self.current >= 1 {
                if self.previous_token().is(&TokenType::SemiColon) {
                    return ;
                }
            }
            match self.peek().token_type() {
                TokenType::Class => {
                    return ;
                },
                TokenType::Fun => {
                    return ;
                },
                TokenType::Var => {
                    return ;
                },
                TokenType::For => {
                    return ;
                },
                TokenType::If => {
                    return ;
                },
                TokenType::While => {
                    return ;
                },
                TokenType::Print => {
                    return ;
                },
                TokenType::Return => {
                    return ;
                },
                _ => {},
            }
            self.advance();
        }
    }

    /// Parse the whole stream: an ordered statement sequence when the
    /// source is well formed, otherwise the non-empty list of syntax
    /// errors found in this one pass — after each error the parser
    /// recovers at the next statement boundary and goes on. A caller must
    /// not evaluate anything when errors come back.
    pub fn parse(&mut self) -> (r: Result<Vec<Stmt>, Vec<LoxResult>>)
        requires
            parser_wf(*old(self)),
            !old(self).in_loop,
            !old(self).in_fun,
        ensures
            parser_wf(*final(self)),
            final(self).tokens@ == old(self).tokens@,
            at_eof(*old(self)) ==> (r matches Ok(ss) && ss@.len() == 0 && final(self).current
                == old(self).current),
            match r {
                Ok(ss) => stmts_wf(ss@, false, false) && stmts_parse(
                    final(self).tokens@,
                    old(self).current as int,
                    final(self).current as int,
                    ss@,
                ) && at_eof(*final(self)),
                Err(es) => es@.len() >= 1 && at_eof(*final(self)) && (forall|i: int|
                    0 <= i < es@.len() ==> (#[trigger] es@[i]) is ParseError || es@[i] is Error),
            },
    {
        let ghost lo = old(self).current as int;
        let mut statements: Vec<Stmt> = Vec::new();
        let mut errors: Vec<LoxResult> = Vec::new();
        while !self.is_at_end()
            invariant
                parser_wf(*self),
                self.tokens@ == old(self).tokens@,
                !self.in_loop,
                !self.in_fun,
                lo <= self.current,
                lo == old(self).current,
                stmts_wf(statements@, false, false),
                at_eof(*old(self)) ==> (self.current == old(self).current && statements@.len()
                    == 0 && errors@.len() == 0),
                forall|i: int|
                    0 <= i < errors@.len() ==> (#[trigger] errors@[i]) is ParseError || errors@[i]
                        is Error,
                errors@.len() == 0 ==> stmts_parse(
                    self.tokens@,
                    lo,
                    self.current as int,
                    statements@,
                ),
            decreases self.tokens@.len() - self.current,
        {
            let ghost mid = self.current as int;
            match self.declaration() {
                Ok(s) => {
                    proof {
                        lemma_stmts_wf_push(statements@, s, false, false);
                        if errors@.len() == 0 {
                            lemma_stmts_parse_snoc(
                                self.tokens@,
                                lo,
                                mid,
                                self.current as int,
                                statements@,
                                s,
                            );
                        }
                    }
                    statements.push(s);
                },
                Err(e) => {
                    errors.push(e);
                },
            }
        }
        if errors.len() == 0 {
            Ok(statements)
        } else {
            Err(errors)
        }
    }

    /// One declaration or statement; on a syntax error the parser
    /// synchronizes to the next statement boundary before handing the
    /// error up.
    fn declaration(&mut self) -> (r: Result<Stmt, LoxResult>)
        requires
            parser_wf(*old(self)),
        ensures
            parser_wf(*final(self)),
            final(self).tokens@ == old(self).tokens@,
            final(self).in_loop == old(self).in_loop,
            final(self).in_fun == old(self).in_fun,
            old(self).current <= final(self).current,
            (r matches Ok(s) ==> stmt_wf(s, old(self).in_loop, old(self).in_fun) && old(
                self,
            ).current < final(self).current && stmt_parse(
                final(self).tokens@,
                old(self).current as int,
                final(self).current as int,
                s,
            )),
            (r is Err ==> (old(self).current < final(self).current || at_eof(*final(self)))
                && at_statement_boundary(*final(self))),
            (r matches Err(e) ==> e is ParseError || e is Error),
        decreases old(self).tokens@.len() - old(self).current, 24int,
    {
        let result = if self.match_tokens(&[TokenType::Var]) {
            self.var_declaration()
        } else if self.match_tokens(&[TokenType::Fun]) {
            self.function_declaration()
        } else {
            self.statement()
        };
        match result {
            Ok(s) => Ok(s),
            Err(e) => {
                self.synchronize();
                Err(e)
            },
        }
    }

    /// `var` declaration: name, optional initializer, semicolon.
    fn var_declaration(&mut self) -> (r: Result<Stmt, LoxResult>)
        requires
            parser_wf(*old(self)),
            old(self).current >= 1,
            old(self).tokens@[old(self).current - 1].ttype == TokenType::Var,
        ensures
            parser_wf(*final(self)),
            final(self).tokens@ == old(self).tokens@,
            final(self).in_loop == old(self).in_loop,
            final(self).in_fun == old(self).in_fun,
            old(self).current <= final(self).current,
            (r matches Ok(s) ==> stmt_wf(s, old(self).in_loop, old(self).in_fun) && stmt_parse(
                final(self).tokens@,
                old(self).current - 1,
                final(self).current as int,
                s,
            )),
            (r matches Err(e) ==> e is ParseError || e is Error),
        decreases old(self).tokens@.len() - old(self).current, 23int,
    {
        let name = self.consume(TokenType::Identifier, "Expect variable name")?;
        let initializer = if self.match_tokens(&[TokenType::Assign]) {
            Some(self.expression()?)
        } else {
            None
        };
        self.consume(TokenType::SemiColon, "Expected ':' after variable declaration")?;
        let st = Stmt::Var(VarStmt { name, initializer });
        proof {
            assert(stmt_parse(
                self.tokens@,
                old(self).current - 1,
                self.current as int,
                st,
            ));
        }
        Ok(st)
    }

    /// `fun` declaration: name, parameter list, body block. Inside the
    /// body a `return` is legal and a `break` needs a new loop.
    fn function_declaration(&mut self) -> (r: Result<Stmt, LoxResult>)
        requires
            parser_wf(*old(self)),
            old(self).current >= 1,
            old(self).tokens@[old(self).current - 1].ttype == TokenType::Fun,
        ensures
            parser_wf(*final(self)),
            final(self).tokens@ == old(self).tokens@,
            final(self).in_loop == old(self).in_loop,
            final(self).in_fun == old(self).in_fun,
            old(self).current <= final(self).current,
            (r matches Ok(s) ==> stmt_wf(s, old(self).in_loop, old(self).in_fun) && stmt_parse(
                final(self).tokens@,
                old(self).current - 1,
                final(self).current as int,
                s,
            )),
            (r matches Err(e) ==> e is ParseError || e is Error),
        decreases old(self).tokens@.len() - old(self).current, 23int,
    {
        let ghost lo = old(self).current - 1;
        let name = self.consume(TokenType::Identifier, "Expect function name.")?;
        self.consume(TokenType::LeftParen, "Expect '(' after function name.")?;
        let params: Vec<Token> = if !self.check(&TokenType::RightParen) {
            self.param_list()?
        } else {
            Vec::new()
        };
        let ghost k: int = self.current as int;
        self.consume(TokenType::RightParen, "Expect ')' after parameters.")?;
        self.consume(TokenType::LeftBrace, "Expect '{' before function body.")?;
        let saved_loop = self.in_loop;
        let saved_fun = self.in_fun;
        self.in_loop = false;
        self.in_fun = true;
        let body = match self.block_statements() {
            Ok(b) => b,
            Err(e) => {
                self.in_loop = saved_loop;
                self.in_fun = saved_fun;
                return Err(e);
            },
        };
        self.in_loop = saved_loop;
        self.in_fun = saved_fun;
        let st = Stmt::Function(
            FunctionStmt { name, params: Rc::new(params), body: Rc::new(body) },
        );
        proof {
            lemma_fun_intro(self.tokens@, lo, k, self.current as int, st);
        }
        Ok(st)
    }

    /// One or more comma-separated parameter names.
    fn param_list(&mut self) -> (r: Result<Vec<Token>, LoxResult>)
        requires
            parser_wf(*old(self)),
        ensures
            parser_wf(*final(self)),
            final(self).tokens@ == old(self).tokens@,
            final(self).in_loop == old(self).in_loop,
            final(self).in_fun == old(self).in_fun,
            old(self).current <= final(self).current,
            (r matches Ok(ps) ==> ps@.len() >= 1 && old(self).current < final(self).current
                && params_parse(
                final(self).tokens@,
                old(self).current as int,
                final(self).current as int,
                ps@,
            )),
            (r matches Err(e) ==> e is ParseError || e is Error),
        decreases old(self).tokens@.len() - old(self).current, 21int,
    {
        let first = self.consume(TokenType::Identifier, "Expect parameter name.")?;
        if self.match_tokens(&[TokenType::Comma]) {
            let mut rest = self.param_list()?;
            let ghost rest0 = rest@;
            rest.insert(0, first);
            proof {
                assert(rest@[0] == first);
                assert(rest@.drop_first() =~= rest0);
                assert(params_parse(
                    self.tokens@,
                    old(self).current as int,
                    self.current as int,
                    rest@,
                ));
            }
            Ok(rest)
        } else {
            let mut ps: Vec<Token> = Vec::new();
            ps.push(first);
            proof {
                assert(ps@[0] == first);
                assert(params_parse(
                    self.tokens@,
                    old(self).current as int,
                    self.current as int,
                    ps@,
                ));
            }
            Ok(ps)
        }
    }

    /// One statement: `print`, a block, `if`, `while`, `return`, `break`,
    /// or an expression statement.
    fn statement(&mut self) -> (r: Result<Stmt, LoxResult>)
        requires
            parser_wf(*old(self)),
        ensures
            parser_wf(*final(self)),
            final(self).tokens@ == old(self).tokens@,
            final(self).in_loop == old(self).in_loop,
            final(self).in_fun == old(self).in_fun,
            old(self).current <= final(self).current,
            (r matches Ok(s) ==> stmt_wf(s, old(self).in_loop, old(self).in_fun) && old(
                self,
            ).current < final(self).current && stmt_parse(
                final(self).tokens@,
                old(self).current as int,
                final(self).current as int,
                s,
            )),
            (r matches Err(e) ==> e is ParseError || e is Error),
        decreases old(self).tokens@.len() - old(self).current, 22int,
    {
        if self.match_tokens(&[TokenType::Print]) {
            return self.print_statement();
        }
        if self.match_tokens(&[TokenType::LeftBrace]) {
            let statements = self.block_statements()?;
            let st = Stmt::Block(BlockStmt { statements });
            proof {
                assert(stmt_parse(
                    self.tokens@,
                    old(self).current as int,
                    self.current as int,
                    st,
                ));
            }
            return Ok(st);
        }
        if self.match_tokens(&[TokenType::If]) {
            return self.if_statement();
        }
        if self.match_tokens(&[TokenType::While]) {
            return self.while_statement();
        }
        if self.match_tokens(&[TokenType::Return]) {
            return self.return_statement();
        }
        if self.match_tokens(&[TokenType::Break]) {
            return self.break_statement();
        }
        self.expresion_statement()
    }

    fn print_statement(&mut self) -> (r: Result<Stmt, LoxResult>)
        requires
            parser_wf(*old(self)),
            old(self).current >= 1,
            old(self).tokens@[old(self).current - 1].ttype == TokenType::Print,
        ensures
            parser_wf(*final(self)),
            final(self).tokens@ == old(self).tokens@,
            final(self).in_loop == old(self).in_loop,
            final(self).in_fun == old(self).in_fun,
            old(self).current <= final(self).current,
            (r matches Ok(s) ==> stmt_wf(s, old(self).in_loop, old(self).in_fun) && stmt_parse(
                final(self).tokens@,
                old(self).current - 1,
                final(self).current as int,
                s,
            )),
            (r matches Err(e) ==> e is ParseError || e is Error),
        decreases old(self).tokens@.len() - old(self).current, 21int,
    {
        let value = self.expression()?;
        self.consume(TokenType::SemiColon, "Expect ';' after value")?;
        Ok(Stmt::Print(PrintStmt { expression: value }))
    }

    fn expresion_statement(&mut self) -> (r: Result<Stmt, LoxResult>)
        requires
            parser_wf(*old(self)),
        ensures
            parser_wf(*final(self)),
            final(self).tokens@ == old(self).tokens@,
            final(self).in_loop == old(self).in_loop,
            final(self).in_fun == old(self).in_fun,
            old(self).current <= final(self).current,
            (r matches Ok(s) ==> stmt_wf(s, old(self).in_loop, old(self).in_fun) && old(
                self,
            ).current < final(self).current && stmt_parse(
                final(self).tokens@,
                old(self).current as int,
                final(self).current as int,
                s,
            )),
            (r matches Err(e) ==> e is ParseError || e is Error),
        decreases old(self).tokens@.len() - old(self).current, 21int,
    {
        let expr = self.expression()?;
        self.consume(TokenType::SemiColon, "Expect ';' after value")?;
        Ok(Stmt::Expression(ExpressionStmt { expression: expr }))
    }

    /// The statements between `{` and `}`.
    fn block_statements(&mut self) -> (r: Result<Vec<Stmt>, LoxResult>)
        requires
            parser_wf(*old(self)),
        ensures
            parser_wf(*final(self)),
            final(self).tokens@ == old(self).tokens@,
            final(self).in_loop == old(self).in_loop,
            final(self).in_fun == old(self).in_fun,
            old(self).current <= final(self).current,
            (r matches Ok(ss) ==> stmts_wf(ss@, old(self).in_loop, old(self).in_fun) && old(
                self,
            ).current < final(self).current && old(self).current <= final(self).current - 1
                && final(self).tokens@[final(self).current - 1].ttype == TokenType::RightBrace
                && stmts_parse(
                final(self).tokens@,
                old(self).current as int,
                final(self).current - 1,
                ss@,
            )),
            (r matches Err(e) ==> e is ParseError || e is Error),
        decreases old(self).tokens@.len() - old(self).current, 25int,
    {
        let ghost lo = old(self).current as int;
        let mut statements: Vec<Stmt> = Vec::new();
        while !self.check(&TokenType::RightBrace) && !self.is_at_end()
            invariant
                parser_wf(*self),
                self.tokens@ == old(self).tokens@,
                self.in_loop == old(self).in_loop,
                self.in_fun == old(self).in_fun,
                old(self).current <= self.current,
                lo == old(self).current,
                stmts_wf(statements@, old(self).in_loop, old(self).in_fun),
                stmts_parse(self.tokens@, lo, self.current as int, statements@),
            decreases self.tokens@.len() - self.current,
        {
            let ghost mid = self.current as int;
            let s = self.declaration()?;
            proof {
                lemma_stmts_wf_push(statements@, s, old(self).in_loop, old(self).in_fun);
                lemma_stmts_parse_snoc(
                    self.tokens@,
                    lo,
                    mid,
                    self.current as int,
                    statements@,
                    s,
                );
            }
            statements.push(s);
        }
        self.consume(TokenType::RightBrace, "Expect '}' after block.")?;
        Ok(statements)
    }

    fn if_statement(&mut self) -> (r: Result<Stmt, LoxResult>)
        requires
            parser_wf(*old(self)),
            old(self).current >= 1,
            old(self).tokens@[old(self).current - 1].ttype == TokenType::If,
        ensures
            parser_wf(*final(self)),
            final(self).tokens@ == old(self).tokens@,
            final(self).in_loop == old(self).in_loop,
            final(self).in_fun == old(self).in_fun,
            old(self).current <= final(self).current,
            (r matches Ok(s) ==> stmt_wf(s, old(self).in_loop, old(self).in_fun) && stmt_parse(
                final(self).tokens@,
                old(self).current - 1,
                final(self).current as int,
                s,
            )),
            (r matches Err(e) ==> e is ParseError || e is Error),
        decreases old(self).tokens@.len() - old(self).current, 21int,
    {
        let ghost lo = old(self).current - 1;
        self.consume(TokenType::LeftParen, "Expect '(' after 'if'.")?;
        let condition = self.expression()?;
        let ghost k: int = self.current as int;
        self.consume(TokenType::RightParen, "Expect ')' after if condition.")?;
        let then_branch = Box::new(self.statement()?);
        if self.match_tokens(&[TokenType::Else]) {
            let ghost m: int = self.current - 1;
            let else_stmt = self.statement()?;
            let st = Stmt::If(
                IfStmt { condition, then_branch, else_branch: Some(Box::new(else_stmt)) },
            );
            proof {
                lemma_if_else_intro(self.tokens@, lo, k, m, self.current as int, st);
            }
            Ok(st)
        } else {
            let st = Stmt::If(IfStmt { condition, then_branch, else_branch: None });
            proof {
                lemma_if_intro(self.tokens@, lo, k, self.current as int, st);
            }
            Ok(st)
        }
    }

    fn while_statement(&mut self) -> (r: Result<Stmt, LoxResult>)
        requires
            parser_wf(*old(self)),
            old(self).current >= 1,
            old(self).tokens@[old(self).current - 1].ttype == TokenType::While,
        ensures
            parser_wf(*final(self)),
            final(self).tokens@ == old(self).tokens@,
            final(self).in_loop == old(self).in_loop,
            final(self).in_fun == old(self).in_fun,
            old(self).current <= final(self).current,
            (r matches Ok(s) ==> stmt_wf(s, old(self).in_loop, old(self).in_fun) && stmt_parse(
                final(self).tokens@,
                old(self).current - 1,
                final(self).current as int,
                s,
            )),
            (r matches Err(e) ==> e is ParseError || e is Error),
        decreases old(self).tokens@.len() - old(self).current, 21int,
    {
        let ghost lo = old(self).current - 1;
        self.consume(TokenType::LeftParen, "Expect '(' after 'while'.")?;
        let condition = self.expression()?;
        let ghost k: int = self.current as int;
        self.consume(TokenType::RightParen, "Expect ')' after condition.")?;
        let saved_loop = self.in_loop;
        self.in_loop = true;
        let body = match self.statement() {
            Ok(b) => b,
            Err(e) => {
                self.in_loop = saved_loop;
                return Err(e);
            },
        };
        self.in_loop = saved_loop;
        let st = Stmt::While(WhileStmt { condition, body: Box::new(body) });
        proof {
            lemma_while_intro(self.tokens@, lo, k, self.current as int, st);
        }
        Ok(st)
    }

    /// `return`, legal only inside a function body; the nearest enclosing
    /// call boundary will consume the signal it raises.
    fn return_statement(&mut self) -> (r: Result<Stmt, LoxResult>)
        requires
            parser_wf(*old(self)),
            old(self).current >= 1,
            old(self).tokens@[old(self).current - 1].ttype == TokenType::Return,
        ensures
            parser_wf(*final(self)),
            final(self).tokens@ == old(self).tokens@,
            final(self).in_loop == old(self).in_loop,
            final(self).in_fun == old(self).in_fun,
            old(self).current <= final(self).current,
            (r matches Ok(s) ==> stmt_wf(s, old(self).in_loop, old(self).in_fun) && stmt_parse(
                final(self).tokens@,
                old(self).current - 1,
                final(self).current as int,
                s,
            )),
            (r matches Err(e) ==> e is ParseError || e is Error),
        decreases old(self).tokens@.len() - old(self).current, 21int,
    {
        let keyword = self.previous_token();
        if !self.in_fun {
            return Err(LoxResult::parse_error(&keyword, "Can't return from top-level code."));
        }
        let value = if !self.check(&TokenType::SemiColon) {
            Some(self.expression()?)
        } else {
            None
        };
        self.consume(TokenType::SemiColon, "Expect ';' after return value.")?;
        Ok(Stmt::Return(ReturnStmt { keyword, value }))
    }

    /// `break`, legal only inside a loop; the nearest enclosing loop will
    /// consume the signal it raises.
    fn break_statement(&mut self) -> (r: Result<Stmt, LoxResult>)
        requires
            parser_wf(*old(self)),
            old(self).current >= 1,
            old(self).tokens@[old(self).current - 1].ttype == TokenType::Break,
        ensures
            parser_wf(*final(self)),
            final(self).tokens@ == old(self).tokens@,
            final(self).in_loop == old(self).in_loop,
            final(self).in_fun == old(self).in_fun,
            old(self).current <= final(self).current,
            (r matches Ok(s) ==> stmt_wf(s, old(self).in_loop, old(self).in_fun) && stmt_parse(
                final(self).tokens@,
                old(self).current - 1,
                final(self).current as int,
                s,
            )),
            (r matches Err(e) ==> e is ParseError || e is Error),
        decreases old(self).tokens@.len() - old(self).current, 21int,
    {
        let token = self.previous_token();
        if !self.in_loop {
            return Err(LoxResult::parse_error(&token, "Must be inside a loop to use 'break'."));
        }
        self.consume(TokenType::SemiColon, "Expect ';' after 'break'.")?;
        Ok(Stmt::Break(BreakStmt { token }))
    }

    /// The expression grammar, one production per precedence level,
    /// descending: assignment, `or`, `and`, equality, comparison, term,
    /// factor, unary, call, primary.
    fn expression(&mut self) -> (r: Result<Expr, LoxResult>)
        requires
            parser_wf(*old(self)),
        ensures
            parser_wf(*final(self)),
            final(self).tokens@ == old(self).tokens@,
            final(self).in_loop == old(self).in_loop,
            final(self).in_fun == old(self).in_fun,
            old(self).current <= final(self).current,
            (r matches Ok(e) ==> expr_wf(e) && old(self).current < final(self).current
                && is_parse(final(self).tokens@, old(self).current as int, final(self).current as int, 9, e)),
            (r matches Err(e) ==> e is ParseError || e is Error),
        decreases old(self).tokens@.len() - old(self).current, 12int,
    {
        self.assignment()
    }

    /// Assignment, right-associative and lowest: the left-hand side is
    /// validated to be a plain variable after it has been parsed as an
    /// ordinary expression.
    fn assignment(&mut self) -> (r: Result<Expr, LoxResult>)
        requires
            parser_wf(*old(self)),
        ensures
            parser_wf(*final(self)),
            final(self).tokens@ == old(self).tokens@,
            final(self).in_loop == old(self).in_loop,
            final(self).in_fun == old(self).in_fun,
            old(self).current <= final(self).current,
            (r matches Ok(e) ==> expr_wf(e) && old(self).current < final(self).current
                && is_parse(final(self).tokens@, old(self).current as int, final(self).current as int, 9, e)),
            (r matches Err(e) ==> e is ParseError || e is Error),
        decreases old(self).tokens@.len() - old(self).current, 11int,
    {
        let ghost lo = old(self).current as int;
        let expr = self.or_expr()?;
        let ghost mid = self.current as int;
        if self.match_tokens(&[TokenType::Assign]) {
            let equals = self.previous_token();
            let value = self.assignment()?;
            match expr {
                Expr::Variable(v) => {
                    proof {
                        lemma_variable_span(self.tokens@, lo, mid, 8, Expr::Variable(v));
                    }
                    let e = Expr::Assign(AssignExpr { name: v.name, value: Box::new(value) });
                    proof {
                        assert(e matches Expr::Assign(a) && is_parse(
                            self.tokens@,
                            lo + 2,
                            self.current as int,
                            9,
                            *a.value,
                        ));
                    }
                    return Ok(e);
                },
                _ => {
                    return Err(LoxResult::parse_error(&equals, "Invalid assignment target."));
                },
            }
        }
        Ok(expr)
    }

    /// `or`, short-circuiting, left-associative.
    fn or_expr(&mut self) -> (r: Result<Expr, LoxResult>)
        requires
            parser_wf(*old(self)),
        ensures
            parser_wf(*final(self)),
            final(self).tokens@ == old(self).tokens@,
            final(self).in_loop == old(self).in_loop,
            final(self).in_fun == old(self).in_fun,
            old(self).current <= final(self).current,
            (r matches Ok(e) ==> expr_wf(e) && old(self).current < final(self).current
                && is_parse(final(self).tokens@, old(self).current as int, final(self).current as int, 8, e)),
            (r matches Err(e) ==> e is ParseError || e is Error),
        decreases old(self).tokens@.len() - old(self).current, 10int,
    {
        let ghost lo = old(self).current as int;
        let mut expr = self.and_expr()?;
        let mut going = true;
        while going
            invariant
                parser_wf(*self),
                self.tokens@ == old(self).tokens@,
                self.in_loop == old(self).in_loop,
                self.in_fun == old(self).in_fun,
                old(self).current < self.current,
                lo == old(self).current,
                expr_wf(expr),
                is_parse(self.tokens@, lo, self.current as int, 8, expr),
            decreases self.tokens@.len() - self.current, (if going {
                1int
            } else {
                0int
            }),
        {
            if self.match_tokens(&[TokenType::Or]) {
                let ghost k: int = self.current - 1;
                let operator = self.previous_token();
                let right = self.and_expr()?;
                expr = Expr::Logical(
                    LogicalExpr { left: Box::new(expr), operator, right: Box::new(right) },
                );
                proof {
                    lemma_logical_fold(self.tokens@, lo, k as int, self.current as int, 8, expr);
                }
            } else {
                going = false;
            }
        }
        Ok(expr)
    }

    /// `and`, short-circuiting, left-associative.
    fn and_expr(&mut self) -> (r: Result<Expr, LoxResult>)
        requires
            parser_wf(*old(self)),
        ensures
            parser_wf(*final(self)),
            final(self).tokens@ == old(self).tokens@,
            final(self).in_loop == old(self).in_loop,
            final(self).in_fun == old(self).in_fun,
            old(self).current <= final(self).current,
            (r matches Ok(e) ==> expr_wf(e) && old(self).current < final(self).current
                && is_parse(final(self).tokens@, old(self).current as int, final(self).current as int, 7, e)),
            (r matches Err(e) ==> e is ParseError || e is Error),
        decreases old(self).tokens@.len() - old(self).current, 9int,
    {
        let ghost lo = old(self).current as int;
        let mut expr = self.equality()?;
        let mut going = true;
        while going
            invariant
                parser_wf(*self),
                self.tokens@ == old(self).tokens@,
                self.in_loop == old(self).in_loop,
                self.in_fun == old(self).in_fun,
                old(self).current < self.current,
                lo == old(self).current,
                expr_wf(expr),
                is_parse(self.tokens@, lo, self.current as int, 7, expr),
            decreases self.tokens@.len() - self.current, (if going {
                1int
            } else {
                0int
            }),
        {
            if self.match_tokens(&[TokenType::And]) {
                let ghost k: int = self.current - 1;
                let operator = self.previous_token();
                let right = self.equality()?;
                expr = Expr::Logical(
                    LogicalExpr { left: Box::new(expr), operator, right: Box::new(right) },
                );
                proof {
                    lemma_logical_fold(self.tokens@, lo, k as int, self.current as int, 7, expr);
                }
            } else {
                going = false;
            }
        }
        Ok(expr)
    }

    /// `!=` and `==`, left-associative: the tree is folded left-deep as
    /// long as another matching operator follows.
    fn equality(&mut self) -> (r: Result<Expr, LoxResult>)
        requires
            parser_wf(*old(self)),
        ensures
            parser_wf(*final(self)),
            final(self).tokens@ == old(self).tokens@,
            final(self).in_loop == old(self).in_loop,
            final(self).in_fun == old(self).in_fun,
            old(self).current <= final(self).current,
            (r matches Ok(e) ==> expr_wf(e) && old(self).current < final(self).current
                && is_parse(final(self).tokens@, old(self).current as int, final(self).current as int, 6, e)),
            (r matches Err(e) ==> e is ParseError || e is Error),
        decreases old(self).tokens@.len() - old(self).current, 8int,
    {
        let ghost lo = old(self).current as int;
        let mut expr = self.comparison()?;
        let mut going = true;
        while going
            invariant
                parser_wf(*self),
                self.tokens@ == old(self).tokens@,
                self.in_loop == old(self).in_loop,
                self.in_fun == old(self).in_fun,
                old(self).current < self.current,
                lo == old(self).current,
                expr_wf(expr),
                is_parse(self.tokens@, lo, self.current as int, 6, expr),
            decreases self.tokens@.len() - self.current, (if going {
                1int
            } else {
                0int
            }),
        {
            if self.match_tokens(&[TokenType::BangEqual, TokenType::Equal]) {
                let ghost k: int = self.current - 1;
                let operator = self.previous_token();
                let right = self.comparison()?;
                expr = Expr::Binary(
                    BinaryExpr { left: Box::new(expr), operator, right: Box::new(right) },
                );
                proof {
                    lemma_binary_fold(self.tokens@, lo, k as int, self.current as int, 6, expr);
                }
            } else {
                going = false;
            }
        }
        Ok(expr)
    }

    /// `>`, `>=`, `<`, `<=`, left-associative.
    fn comparison(&mut self) -> (r: Result<Expr, LoxResult>)
        requires
            parser_wf(*old(self)),
        ensures
            parser_wf(*final(self)),
            final(self).tokens@ == old(self).tokens@,
            final(self).in_loop == old(self).in_loop,
            final(self).in_fun == old(self).in_fun,
            old(self).current <= final(self).current,
            (r matches Ok(e) ==> expr_wf(e) && old(self).current < final(self).current
                && is_parse(final(self).tokens@, old(self).current as int, final(self).current as int, 5, e)),
            (r matches Err(e) ==> e is ParseError || e is Error),
        decreases old(self).tokens@.len() - old(self).current, 7int,
    {
        let ghost lo = old(self).current as int;
        let mut expr = self.term()?;
        let mut going = true;
        while going
            invariant
                parser_wf(*self),
                self.tokens@ == old(self).tokens@,
                self.in_loop == old(self).in_loop,
                self.in_fun == old(self).in_fun,
                old(self).current < self.current,
                lo == old(self).current,
                expr_wf(expr),
                is_parse(self.tokens@, lo, self.current as int, 5, expr),
            decreases self.tokens@.len() - self.current, (if going {
                1int
            } else {
                0int
            }),
        {
            if self.match_tokens(
                &[
                    TokenType::Greater,
                    TokenType::GreaterEqual,
                    TokenType::Less,
                    TokenType::LessEqual,
                ],
            ) {
                let ghost k: int = self.current - 1;
                let operator = self.previous_token();
                let right = self.term()?;
                expr = Expr::Binary(
                    BinaryExpr { left: Box::new(expr), operator, right: Box::new(right) },
                );
                proof {
                    lemma_binary_fold(self.tokens@, lo, k as int, self.current as int, 5, expr);
                }
            } else {
                going = false;
            }
        }
        Ok(expr)
    }

    /// `-` and `+`, left-associative.
    fn term(&mut self) -> (r: Result<Expr, LoxResult>)
        requires
            parser_wf(*old(self)),
        ensures
            parser_wf(*final(self)),
            final(self).tokens@ == old(self).tokens@,
            final(self).in_loop == old(self).in_loop,
            final(self).in_fun == old(self).in_fun,
            old(self).current <= final(self).current,
            (r matches Ok(e) ==> expr_wf(e) && old(self).current < final(self).current
                && is_parse(final(self).tokens@, old(self).current as int, final(self).current as int, 4, e)),
            (r matches Err(e) ==> e is ParseError || e is Error),
        decreases old(self).tokens@.len() - old(self).current, 6int,
    {
        let ghost lo = old(self).current as int;
        let mut expr = self.factor()?;
        let mut going = true;
        while going
            invariant
                parser_wf(*self),
                self.tokens@ == old(self).tokens@,
                self.in_loop == old(self).in_loop,
                self.in_fun == old(self).in_fun,
                old(self).current < self.current,
                lo == old(self).current,
                expr_wf(expr),
                is_parse(self.tokens@, lo, self.current as int, 4, expr),
            decreases self.tokens@.len() - self.current, (if going {
                1int
            } else {
                0int
            }),
        {
            if self.match_tokens(&[TokenType::Minus, TokenType::Plus]) {
                let ghost k: int = self.current - 1;
                let operator = self.previous_token();
                let right = self.factor()?;
                expr = Expr::Binary(
                    BinaryExpr { left: Box::new(expr), operator, right: Box::new(right) },
                );
                proof {
                    lemma_binary_fold(self.tokens@, lo, k as int, self.current as int, 4, expr);
                }
            } else {
                going = false;
            }
        }
        Ok(expr)
    }

    /// `/` and `*`, left-associative; they bind tighter than `-` and `+`
    /// because `term` only ever folds whole `factor` trees.
    fn factor(&mut self) -> (r: Result<Expr, LoxResult>)
        requires
            parser_wf(*old(self)),
        ensures
            parser_wf(*final(self)),
            final(self).tokens@ == old(self).tokens@,
            final(self).in_loop == old(self).in_loop,
            final(self).in_fun == old(self).in_fun,
            old(self).current <= final(self).current,
            (r matches Ok(e) ==> expr_wf(e) && old(self).current < final(self).current
                && is_parse(final(self).tokens@, old(self).current as int, final(self).current as int, 3, e)),
            (r matches Err(e) ==> e is ParseError || e is Error),
        decreases old(self).tokens@.len() - old(self).current, 5int,
    {
        let ghost lo = old(self).current as int;
        let mut expr = self.unary()?;
        let mut going = true;
        while going
            invariant
                parser_wf(*self),
                self.tokens@ == old(self).tokens@,
                self.in_loop == old(self).in_loop,
                self.in_fun == old(self).in_fun,
                old(self).current < self.current,
                lo == old(self).current,
                expr_wf(expr),
                is_parse(self.tokens@, lo, self.current as int, 3, expr),
            decreases self.tokens@.len() - self.current, (if going {
                1int
            } else {
                0int
            }),
        {
            if self.match_tokens(&[TokenType::Slash, TokenType::Star]) {
                let ghost k: int = self.current - 1;
                let operator = self.previous_token();
                let right = self.unary()?;
                expr = Expr::Binary(
                    BinaryExpr { left: Box::new(expr), operator, right: Box::new(right) },
                );
                proof {
                    lemma_binary_fold(self.tokens@, lo, k as int, self.current as int, 3, expr);
                }
            } else {
                going = false;
            }
        }
        Ok(expr)
    }

    /// `!` and `-`, right-associative.
    fn unary(&mut self) -> (r: Result<Expr, LoxResult>)
        requires
            parser_wf(*old(self)),
        ensures
            parser_wf(*final(self)),
            final(self).tokens@ == old(self).tokens@,
            final(self).in_loop == old(self).in_loop,
            final(self).in_fun == old(self).in_fun,
            old(self).current <= final(self).current,
            (r matches Ok(e) ==> expr_wf(e) && old(self).current < final(self).current
                && is_parse(final(self).tokens@, old(self).current as int, final(self).current as int, 2, e)),
            (r matches Err(e) ==> e is ParseError || e is Error),
        decreases old(self).tokens@.len() - old(self).current, 4int,
    {
        if self.match_tokens(&[TokenType::Bang, TokenType::Minus]) {
            let operator = self.previous_token();
            let right = self.unary()?;
            return Ok(Expr::Unary(UnaryExpr { operator, right: Box::new(right) }));
        }
        self.call_expr()
    }

    /// Function application, left-associative: a parsed callee may be
    /// called again and again (`f(1)(2)`).
    fn call_expr(&mut self) -> (r: Result<Expr, LoxResult>)
        requires
            parser_wf(*old(self)),
        ensures
            parser_wf(*final(self)),
            final(self).tokens@ == old(self).tokens@,
            final(self).in_loop == old(self).in_loop,
            final(self).in_fun == old(self).in_fun,
            old(self).current <= final(self).current,
            (r matches Ok(e) ==> expr_wf(e) && old(self).current < final(self).current
                && is_parse(final(self).tokens@, old(self).current as int, final(self).current as int, 1, e)),
            (r matches Err(e) ==> e is ParseError || e is Error),
        decreases old(self).tokens@.len() - old(self).current, 3int,
    {
        let ghost lo = old(self).current as int;
        let mut expr = self.primary()?;
        let mut going = true;
        while going
            invariant
                parser_wf(*self),
                self.tokens@ == old(self).tokens@,
                self.in_loop == old(self).in_loop,
                self.in_fun == old(self).in_fun,
                old(self).current < self.current,
                lo == old(self).current,
                expr_wf(expr),
                is_parse(self.tokens@, lo, self.current as int, 1, expr),
            decreases self.tokens@.len() - self.current, (if going {
                1int
            } else {
                0int
            }),
        {
            if self.match_tokens(&[TokenType::LeftParen]) {
                expr = self.finish_call(expr, Ghost(lo))?;
            } else {
                going = false;
            }
        }
        Ok(expr)
    }

    /// The argument list and closing parenthesis of one call, entered with
    /// the opening parenthesis just consumed; `lo` is where the callee's
    /// own text begins, so the whole call node spans `lo` to the closing
    /// parenthesis.
    fn finish_call(&mut self, callee: Expr, Ghost(lo): Ghost<int>) -> (r: Result<Expr, LoxResult>)
        requires
            parser_wf(*old(self)),
            expr_wf(callee),
            0 <= lo,
            lo + 1 < old(self).current,
            old(self).tokens@[old(self).current - 1].ttype == TokenType::LeftParen,
            is_parse(old(self).tokens@, lo, old(self).current - 1, 1, callee),
        ensures
            parser_wf(*final(self)),
            final(self).tokens@ == old(self).tokens@,
            final(self).in_loop == old(self).in_loop,
            final(self).in_fun == old(self).in_fun,
            old(self).current <= final(self).current,
            (r matches Ok(e) ==> expr_wf(e) && old(self).current < final(self).current
                && is_parse(final(self).tokens@, lo, final(self).current as int, 1, e)),
            (r matches Err(e) ==> e is ParseError || e is Error),
        decreases old(self).tokens@.len() - old(self).current, 14int,
    {
        let ghost args_lo = old(self).current as int;
        let arguments: Vec<Expr> = if !self.check(&TokenType::RightParen) {
            self.arg_list()?
        } else {
            Vec::new()
        };
        let paren = self.consume(TokenType::RightParen, "Expect ')' after arguments.")?;
        let e = Expr::Call(CallExpr { callee: Box::new(callee), paren, arguments });
        proof {
            let toks = self.tokens@;
            let hi = self.current as int;
            let k = args_lo - 1;
            assert(lo < k < hi - 1);
            assert(e matches Expr::Call(c) && {
                &&& expr_wf(*c.callee)
                &&& exprs_wf(c.arguments@)
                &&& is_parse(toks, lo, k, 1, *c.callee)
                &&& toks[k].ttype == TokenType::LeftParen
                &&& c.paren == toks[hi - 1]
                &&& toks[hi - 1].ttype == TokenType::RightParen
                &&& args_parse(toks, k + 1, hi - 1, c.arguments@)
            });
            lemma_call_fold(toks, lo, k, hi, e);
        }
        Ok(e)
    }

    /// One or more comma-separated call arguments, each an expression at
    /// assignment level.
    fn arg_list(&mut self) -> (r: Result<Vec<Expr>, LoxResult>)
        requires
            parser_wf(*old(self)),
        ensures
            parser_wf(*final(self)),
            final(self).tokens@ == old(self).tokens@,
            final(self).in_loop == old(self).in_loop,
            final(self).in_fun == old(self).in_fun,
            old(self).current <= final(self).current,
            (r matches Ok(es) ==> exprs_wf(es@) && es@.len() >= 1
                && old(self).current < final(self).current
                && args_parse(
                final(self).tokens@,
                old(self).current as int,
                final(self).current as int,
                es@,
            )),
            (r matches Err(e) ==> e is ParseError || e is Error),
        decreases old(self).tokens@.len() - old(self).current, 13int,
    {
        let ghost lo = old(self).current as int;
        let first = self.expression()?;
        if self.match_tokens(&[TokenType::Comma]) {
            let ghost k: int = self.current - 1;
            let mut rest = self.arg_list()?;
            let ghost rest0 = rest@;
            rest.insert(0, first);
            proof {
                assert(rest@[0] == first);
                assert(rest@.drop_first() =~= rest0);
                assert(exprs_wf(rest@));
                lemma_args_cons(self.tokens@, lo, k, self.current as int, rest@);
            }
            Ok(rest)
        } else {
            let mut es: Vec<Expr> = Vec::new();
            es.push(first);
            proof {
                lemma_exprs_wf_push(Seq::<Expr>::empty(), first);
                assert(es@ =~= Seq::<Expr>::empty().push(first));
                assert(es@[0] == first);
                assert(args_parse(self.tokens@, lo, self.current as int, es@));
            }
            Ok(es)
        }
    }

    /// Literals, identifiers and grouping; anything else is a syntax
    /// error at the current token.
    fn primary(&mut self) -> (r: Result<Expr, LoxResult>)
        requires
            parser_wf(*old(self)),
        ensures
            parser_wf(*final(self)),
            final(self).tokens@ == old(self).tokens@,
            final(self).in_loop == old(self).in_loop,
            final(self).in_fun == old(self).in_fun,
            old(self).current <= final(self).current,
            (r matches Ok(e) ==> expr_wf(e) && old(self).current < final(self).current
                && is_parse(final(self).tokens@, old(self).current as int, final(self).current as int, 0, e)),
            (r matches Err(e) ==> e is ParseError || e is Error),
        decreases old(self).tokens@.len() - old(self).current, 1int,
    {
        if self.match_tokens(&[TokenType::False]) {
            return Ok(Expr::Literal(LiteralExpr { value: Some(Object::Bool(false)) }));
        }
        if self.match_tokens(&[TokenType::True]) {
            return Ok(Expr::Literal(LiteralExpr { value: Some(Object::Bool(true)) }));
        }
        if self.match_tokens(&[TokenType::Nil]) {
            return Ok(Expr::Literal(LiteralExpr { value: Some(Object::Nil) }));
        }
        if self.match_tokens(&[TokenType::Number, TokenType::String]) {
            let value = match &self.tokens[self.current - 1].literal {
                Some(o) => Some(o.dup()),
                None => None,
            };
            return Ok(Expr::Literal(LiteralExpr { value }));
        }
        if self.match_tokens(&[TokenType::Identifier]) {
            return Ok(Expr::Variable(VariableExpr { name: self.previous_token() }));
        }
        if self.match_tokens(&[TokenType::LeftParen]) {
            let expr = self.expression()?;
            self.consume(TokenType::RightParen, "Expected ')' after expression.")?;
            return Ok(Expr::Grouping(GroupingExpr { expression: Box::new(expr) }));
        }
        Err(LoxResult::error(self.tokens[self.current].line, "Expected expression."))
    }
}

} // verus!
