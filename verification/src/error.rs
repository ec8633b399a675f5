use vstd::prelude::*;
use crate::object::{num_text, push_digits_u64, Object};
use crate::token::{Token, TokenType};

verus! {

/// Every way a scan, a parse or an evaluation can stop early: a syntax
/// error tagged with the offending token, a runtime error tagged with its
/// token, a bare error tagged with a line (used where no token is at hand),
/// a host-environment failure, and the two control-flow signals, `Break`
/// and `ReturnValue`, which travel through the same channel as errors but
/// are not failures: the nearest enclosing loop consumes a `Break` and the
/// nearest enclosing call boundary consumes a `ReturnValue`.
#[derive(Debug)]
pub enum LoxResult {
    ParseError { token: Token, message: String },
    RuntimeError { token: Token, message: String },
    Error { line: usize, message: String },
    SystemError { message: String },
    Break,
    ReturnValue { value: Object },
}

/// Whether `e` is a runtime error carrying exactly this token and message.
pub open spec fn is_runtime_error(e: LoxResult, token: Token, message: Seq<char>) -> bool {
    &&& e matches LoxResult::RuntimeError { token: t, message: m }
    &&& t == token
    &&& m@ == message
}

/// Whether `e` is a parse error carrying exactly this token and message.
pub open spec fn is_parse_error(e: LoxResult, token: Token, message: Seq<char>) -> bool {
    &&& e matches LoxResult::ParseError { token: t, message: m }
    &&& t == token
    &&& m@ == message
}

/// The line of text a reported error renders to: parse errors and runtime
/// errors name their line and token ("at end" for the end-of-input
/// sentinel), bare errors name their line, system errors their message,
/// and the two control signals render to nothing.
pub open spec fn report_text_spec(e: LoxResult, loc: Seq<char>) -> Seq<char> {
    match e {
        LoxResult::ParseError { token, message } => {
            if token.ttype == TokenType::Eof {
                "[line "@ + num_text(token.line as int) + "] Error at end: "@ + message@
            } else {
                "[line "@ + num_text(token.line as int) + "] Error at '"@ + token.lexeme@ + "': "@
                    + message@
            }
        },
        LoxResult::RuntimeError { token, message } => {
            if token.ttype == TokenType::Eof {
                "[line "@ + num_text(token.line as int) + "] Error at end: "@ + message@
            } else {
                "Line "@ + num_text(token.line as int) + " at '"@ + token.lexeme@ + "' "@
                    + message@
            }
        },
        LoxResult::Error { line, message } => {
            "[line "@ + num_text(line as int) + "] Error"@ + loc + ": "@ + message@
        },
        LoxResult::SystemError { message } => "System Error: "@ + message@,
        LoxResult::Break => Seq::empty(),
        LoxResult::ReturnValue { value: _ } => Seq::empty(),
    }
}

impl LoxResult {
    /// A bare error for the given line.
    pub fn error(line: usize, message: &str) -> (e: LoxResult)
        ensures
            e matches LoxResult::Error { line: l, message: m } && l == line && m@ == message@,
    {
        LoxResult::Error { line, message: String::from_str(message) }
    }

    /// A syntax error at the given token.
    pub fn parse_error(token: &Token, message: &str) -> (e: LoxResult)
        ensures
            is_parse_error(e, *token, message@),
    {
        LoxResult::ParseError { token: token.dup(), message: String::from_str(message) }
    }

    /// A runtime error at the given token.
    pub fn runtime_error(token: &Token, message: &str) -> (e: LoxResult)
        ensures
            is_runtime_error(e, *token, message@),
    {
        LoxResult::RuntimeError { token: token.dup(), message: String::from_str(message) }
    }

    /// A host-environment failure.
    pub fn system_error(message: &str) -> (e: LoxResult)
        ensures
            e matches LoxResult::SystemError { message: m } && m@ == message@,
    {
        LoxResult::SystemError { message: String::from_str(message) }
    }

    /// Whether this outcome is one of the two control-flow signals rather
    /// than an error.
    pub fn is_signal(&self) -> (r: bool)
        ensures
            r == (*self is Break || *self is ReturnValue),
    {
        match self {
            LoxResult::Break => true,
            LoxResult::ReturnValue { .. } => true,
            _ => false,
        }
    }

    /// The diagnostic line this error renders to; the host writes it to
    /// its diagnostic stream.
    pub fn report_text(&self, loc: &str) -> (r: String)
        ensures
            r@ == report_text_spec(*self, loc@),
    {
        proof {
            reveal_strlit("[line ");
            reveal_strlit("] Error at end: ");
            reveal_strlit("] Error at '");
            reveal_strlit("': ");
            reveal_strlit("Line ");
            reveal_strlit(" at '");
            reveal_strlit("' ");
            reveal_strlit("] Error");
            reveal_strlit(": ");
            reveal_strlit("System Error: ");
        }
        let mut s = String::new();
        match self {
            LoxResult::ParseError { token, message } => {
                s.append("[line ");
                push_digits_u64(&mut s, token.line as u64);
                if token.is(&TokenType::Eof) {
                    s.append("] Error at end: ");
                    s.append(message.as_str());
                } else {
                    s.append("] Error at '");
                    s.append(token.lexeme.as_str());
                    s.append("': ");
                    s.append(message.as_str());
                }
                proof {
                    assert(s@ =~= report_text_spec(*self, loc@));
                }
            },
            LoxResult::RuntimeError { token, message } => {
                if token.is(&TokenType::Eof) {
                    s.append("[line ");
                    push_digits_u64(&mut s, token.line as u64);
                    s.append("] Error at end: ");
                    s.append(message.as_str());
                } else {
                    s.append("Line ");
                    push_digits_u64(&mut s, token.line as u64);
                    s.append(" at '");
                    s.append(token.lexeme.as_str());
                    s.append("' ");
                    s.append(message.as_str());
                }
                proof {
                    assert(s@ =~= report_text_spec(*self, loc@));
                }
            },
            LoxResult::Error { line, message } => {
                s.append("[line ");
                push_digits_u64(&mut s, *line as u64);
                s.append("] Error");
                s.append(loc);
                s.append(": ");
                s.append(message.as_str());
                proof {
                    assert(s@ =~= report_text_spec(*self, loc@));
                }
            },
            LoxResult::SystemError { message } => {
                s.append("System Error: ");
                s.append(message.as_str());
                proof {
                    assert(s@ =~= report_text_spec(*self, loc@));
                }
            },
            LoxResult::Break => {
                proof {
                    assert(s@ =~= report_text_spec(*self, loc@));
                }
            },
            LoxResult::ReturnValue { .. } => {
                proof {
                    assert(s@ =~= report_text_spec(*self, loc@));
                }
            },
        }
        s
    }
}

} // verus!
