use vstd::prelude::*;
use crate::ast::{expr_wf, Expr};
use crate::error::LoxResult;
use crate::object::obj_text;

verus! {

/// The diagnostic text an expression prints as: a parenthesized, prefix
/// rendering of the literal/grouping/unary/binary fragment of the tree.
/// The remaining node kinds render as the printer has always rendered
/// them: calls and logical operators as `nil`, variable and assignment
/// nodes as nothing.
pub open spec fn expr_text(e: Expr) -> Seq<char>
    decreases e,
{
    match e {
        Expr::Literal(l) => match l.value {
            Some(v) => obj_text(v),
            None => "nil"@,
        },
        Expr::Grouping(g) => "(group "@ + expr_text(*g.expression) + ")"@,
        Expr::Unary(u) => "("@ + u.operator.lexeme@ + " "@ + expr_text(*u.right) + ")"@,
        Expr::Binary(b) => "("@ + b.operator.lexeme@ + " "@ + expr_text(*b.left) + " "@
            + expr_text(*b.right) + ")"@,
        Expr::Call(_) => "nil"@,
        Expr::Logical(_) => "nil"@,
        Expr::Variable(_) => Seq::empty(),
        Expr::Assign(_) => Seq::empty(),
    }
}

/// A diagnostic printer that renders an expression tree as parenthesized
/// prefix text.
pub struct AstPrinter;

impl AstPrinter {
    /// Render an expression; the result is exactly `expr_text` of the
    /// tree.
    pub fn print(&mut self, expr: &Expr) -> (r: Result<String, LoxResult>)
        requires
            expr_wf(*expr),
        ensures
            r matches Ok(t) && t@ == expr_text(*expr),
    {
        Ok(render(expr))
    }
}

/// Render one expression node.
fn render(e: &Expr) -> (r: String)
    requires
        expr_wf(*e),
    ensures
        r@ == expr_text(*e),
    decreases *e,
{
    proof {
        reveal_strlit("nil");
        reveal_strlit("(group ");
        reveal_strlit("(");
        reveal_strlit(" ");
        reveal_strlit(")");
    }
    match e {
        Expr::Literal(l) => match &l.value {
            Some(v) => v.to_text(),
            None => String::from_str("nil"),
        },
        Expr::Grouping(g) => {
            let mut s = String::from_str("(group ");
            s.append(render(&g.expression).as_str());
            s.append(")");
            proof {
                assert(s@ =~= expr_text(*e));
            }
            s
        },
        Expr::Unary(u) => {
            let mut s = String::from_str("(");
            s.append(u.operator.lexeme.as_str());
            s.append(" ");
            s.append(render(&u.right).as_str());
            s.append(")");
            proof {
                assert(s@ =~= expr_text(*e));
            }
            s
        },
        Expr::Binary(b) => {
            let mut s = String::from_str("(");
            s.append(b.operator.lexeme.as_str());
            s.append(" ");
            s.append(render(&b.left).as_str());
            s.append(" ");
            s.append(render(&b.right).as_str());
            s.append(")");
            proof {
                assert(s@ =~= expr_text(*e));
            }
            s
        },
        Expr::Call(_) => String::from_str("nil"),
        Expr::Logical(_) => String::from_str("nil"),
        Expr::Variable(_) => String::new(),
        Expr::Assign(_) => String::new(),
    }
}

} // verus!
