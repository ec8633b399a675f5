//! A tree-walking evaluator for a small dynamically typed, lexically
//! scoped scripting language: a scanner, a recursive-descent parser with
//! statement-boundary error recovery, and an interpreter that walks the
//! resulting syntax tree against a chain of lexical scopes, with
//! first-class functions, closures, short-circuit logic, and `break` /
//! `return` signalling without host exceptions.

use vstd::prelude::*;

pub mod ast;
pub mod ast_printer;
pub mod callable;
pub mod environment;
pub mod error;
pub mod generate_ast;
pub mod interpreter;
pub mod native_functions;
pub mod object;
pub mod parser;
pub mod scanner;
pub mod token;

use crate::error::LoxResult;
use crate::interpreter::Interpreter;
use crate::parser::Parser;
use crate::scanner::Scanner;

verus! {

/// What one source text ran to: a lexical error (nothing was parsed), a
/// non-empty list of syntax errors (nothing was evaluated), or an
/// execution — its printed lines, whether it finished without a runtime
/// error, and the error that stopped it if one did.
pub enum RunOutcome {
    ScanError(LoxResult),
    ParseErrors(Vec<LoxResult>),
    Ran { output: Vec<String>, ok: bool, errors: Vec<LoxResult> },
}

/// Scan, parse and interpret one source text. Any syntax error suppresses
/// evaluation entirely: an execution only happens for a source that
/// scanned and parsed clean.
pub fn run(source: &str) -> (r: RunOutcome)
    ensures
        r matches RunOutcome::ScanError(e) ==> e is Error,
        r matches RunOutcome::ParseErrors(es) ==> es@.len() >= 1 && (forall|i: int|
            0 <= i < es@.len() ==> (#[trigger] es@[i]) is ParseError || es@[i] is Error),
        r matches RunOutcome::Ran { output, ok, errors } ==> ((ok <==> errors@.len() == 0)
            && errors@.len() <= 1 && (errors@.len() == 1 ==> ({
            let e = errors@.last();
            &&& !(e is Break)
            &&& !(e is ReturnValue)
            &&& !(e is ParseError)
        }))),
        source@.len() == 0 ==> (r matches RunOutcome::Ran { output, ok, errors } && output@.len()
            == 0 && ok && errors@.len() == 0),
        source@.len() == 1 && !crate::scanner::starts_token_or_space(source@[0])
            ==> r is ScanError,
{
    let mut scanner = Scanner::new(source);
    let tokens = match scanner.scan_tokens() {
        Ok(t) => t,
        Err(e) => {
            return RunOutcome::ScanError(e);
        },
    };
    let mut parser = Parser::new(tokens);
    let statements = match parser.parse() {
        Ok(s) => s,
        Err(es) => {
            return RunOutcome::ParseErrors(es);
        },
    };
    let mut interpreter = Interpreter::new();
    let ok = interpreter.interpret(&statements);
    RunOutcome::Ran { output: interpreter.output, ok, errors: interpreter.errors }
}

} // verus!
