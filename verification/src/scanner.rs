use vstd::prelude::*;
use crate::ast::lit_ok;
use crate::error::LoxResult;
use crate::object::Object;
use crate::parser::tokens_ok;
use crate::token::{Token, TokenType};

verus! {

/// An ASCII decimal digit.
pub open spec fn is_digit_sp(c: char) -> bool {
    48 <= c as u32 <= 57
}

/// An ASCII letter.
pub open spec fn is_alpha_sp(c: char) -> bool {
    (65 <= c as u32 <= 90) || (97 <= c as u32 <= 122)
}

/// The number a digit sequence denotes, most significant digit first.
pub open spec fn digits_val(s: Seq<char>) -> int
    decreases s.len(),
{
    if s.len() == 0 {
        0
    } else {
        digits_val(s.drop_last()) * 10 + (s.last() as u32 - 48)
    }
}

/// The token kind a keyword lexeme denotes, if it is one.
pub open spec fn spec_keyword(s: Seq<char>) -> Option<TokenType> {
    if s == "and"@ {
        Some(TokenType::And)
    } else if s == "class"@ {
        Some(TokenType::Class)
    } else if s == "else"@ {
        Some(TokenType::Else)
    } else if s == "false"@ {
        Some(TokenType::False)
    } else if s == "for"@ {
        Some(TokenType::For)
    } else if s == "fun"@ {
        Some(TokenType::Fun)
    } else if s == "if"@ {
        Some(TokenType::If)
    } else if s == "nil"@ {
        Some(TokenType::Nil)
    } else if s == "or"@ {
        Some(TokenType::Or)
    } else if s == "print"@ {
        Some(TokenType::Print)
    } else if s == "return"@ {
        Some(TokenType::Return)
    } else if s == "super"@ {
        Some(TokenType::Super)
    } else if s == "this"@ {
        Some(TokenType::This)
    } else if s == "true"@ {
        Some(TokenType::True)
    } else if s == "var"@ {
        Some(TokenType::Var)
    } else if s == "while"@ {
        Some(TokenType::While)
    } else if s == "break"@ {
        Some(TokenType::Break)
    } else {
        None
    }
}

/// The characters that may begin a token, whitespace or a comment: every
/// other character is a lexical error.
pub open spec fn starts_token_or_space(c: char) -> bool {
    ||| c == '('
    ||| c == ')'
    ||| c == '{'
    ||| c == '}'
    ||| c == ','
    ||| c == '.'
    ||| c == '-'
    ||| c == '+'
    ||| c == ';'
    ||| c == '*'
    ||| c == '!'
    ||| c == '='
    ||| c == '>'
    ||| c == '<'
    ||| c == '/'
    ||| c == ' '
    ||| c == '\r'
    ||| c == '\t'
    ||| c == '\n'
    ||| c == '"'
    ||| is_digit_sp(c)
    ||| is_alpha_sp(c)
    ||| c == '_'
}

/// Every token produced while scanning carries a literal a parser accepts,
/// and the sentinel is only appended once scanning is done.
pub open spec fn scanned_ok(ts: Seq<Token>) -> bool {
    forall|i: int|
        0 <= i < ts.len() ==> lit_ok((#[trigger] ts[i]).literal) && ts[i].ttype != TokenType::Eof
}

/// The lexical scanner: it walks the source text by character index and
/// produces the token stream the parser consumes.
pub struct Scanner {
    pub source: String,
    pub start: usize,
    pub current: usize,
    pub line: usize,
    pub n_chars: usize,
}

/// The scanner's invariant: the lexeme window sits inside the source and
/// the cached character count is the source's length.
pub open spec fn scanner_wf(s: Scanner) -> bool {
    &&& s.start <= s.current <= s.n_chars
    &&& s.n_chars == s.source@.len()
}

impl Scanner {
    pub fn new(source: &str) -> (s: Scanner)
        ensures
            scanner_wf(s),
            s.source@ == source@,
            s.start == 0,
            s.current == 0,
            s.line == 1,
    {
        let n_chars = source.unicode_len();
        Scanner { source: String::from_str(source), start: 0, current: 0, line: 1, n_chars }
    }

    fn is_at_end(&self) -> (r: bool)
        requires
            scanner_wf(*self),
        ensures
            r == (self.current >= self.source@.len()),
    {
        self.current >= self.n_chars
    }

    /// The character under the cursor, or NUL once the source is spent.
    fn peek_char(&self) -> (c: char)
        requires
            scanner_wf(*self),
        ensures
            c == if self.current < self.source@.len() {
                self.source@[self.current as int]
            } else {
                '\0'
            },
    {
        if self.is_at_end() {
            '\0'
        } else {
            self.source.as_str().get_char(self.current)
        }
    }

    /// The character after the cursor, or NUL when none is left.
    fn peek_next(&self) -> (c: char)
        requires
            scanner_wf(*self),
        ensures
            c == if self.current + 1 < self.source@.len() {
                self.source@[self.current + 1]
            } else {
                '\0'
            },
    {
        if self.is_at_end() {
            '\0'
        } else if self.current + 1 >= self.n_chars {
            '\0'
        } else {
            self.source.as_str().get_char(self.current + 1)
        }
    }

    /// Consume and return the character under the cursor.
    fn advance(&mut self) -> (c: char)
        requires
            scanner_wf(*old(self)),
            old(self).current < old(self).source@.len(),
        ensures
            scanner_wf(*final(self)),
            final(self).source@ == old(self).source@,
            final(self).start == old(self).start,
            final(self).line == old(self).line,
            final(self).current == old(self).current + 1,
            c == old(self).source@[old(self).current as int],
    {
        let c = self.source.as_str().get_char(self.current);
        self.current = self.current + 1;
        c
    }

    /// Consume the character under the cursor when it is the expected one.
    fn is_match(&mut self, expected: char) -> (r: bool)
        requires
            scanner_wf(*old(self)),
        ensures
            scanner_wf(*final(self)),
            final(self).source@ == old(self).source@,
            final(self).start == old(self).start,
            final(self).line == old(self).line,
            r == (old(self).current < old(self).source@.len() && old(
                self,
            ).source@[old(self).current as int] == expected),
            final(self).current == if r {
                old(self).current + 1
            } else {
                old(self).current as int
            },
    {
        if self.is_at_end() {
            return false;
        }
        let c = self.source.as_str().get_char(self.current);
        if c == expected {
            self.current = self.current + 1;
            true
        } else {
            false
        }
    }

    /// Bump the source line count; the count saturates rather than wrap,
    /// which no real source can reach.
    fn bump_line(&mut self)
        requires
            scanner_wf(*old(self)),
        ensures
            scanner_wf(*final(self)),
            final(self).source@ == old(self).source@,
            final(self).start == old(self).start,
            final(self).current == old(self).current,
    {
        if self.line < usize::MAX {
            self.line = self.line + 1;
        }
    }

    /// The current lexeme: the source text from `start` to the cursor.
    fn lexeme_text(&self) -> (r: String)
        requires
            scanner_wf(*self),
        ensures
            r@ == self.source@.subrange(self.start as int, self.current as int),
    {
        self.source.as_str().substring_char(self.start, self.current).to_owned()
    }

    /// Append a token covering the current lexeme.
    fn add_token(&self, tokens: &mut Vec<Token>, ttype: TokenType, literal: Option<Object>)
        requires
            scanner_wf(*self),
            lit_ok(literal),
            ttype != TokenType::Eof,
            scanned_ok(old(tokens)@),
        ensures
            final(tokens)@.len() == old(tokens)@.len() + 1,
            scanned_ok(final(tokens)@),
            final(tokens)@.last().ttype == ttype,
            final(tokens)@.last().literal == literal,
            final(tokens)@.last().lexeme@ == self.source@.subrange(
                self.start as int,
                self.current as int,
            ),
            final(tokens)@.last().line == self.line,
            forall|i: int| 0 <= i < old(tokens)@.len() ==> final(tokens)@[i] == old(tokens)@[i],
    {
        let text = self.lexeme_text();
        tokens.push(Token::new(ttype, text, literal, self.line));
    }

    /// The keyword a lexeme spells, if any.
    fn keyword(check: &String) -> (r: Option<TokenType>)
        ensures
            r == spec_keyword(check@),
            r matches Some(t) ==> t != TokenType::Eof,
    {
        if *check == String::from_str("and") {
            Some(TokenType::And)
        } else if *check == String::from_str("class") {
            Some(TokenType::Class)
        } else if *check == String::from_str("else") {
            Some(TokenType::Else)
        } else if *check == String::from_str("false") {
            Some(TokenType::False)
        } else if *check == String::from_str("for") {
            Some(TokenType::For)
        } else if *check == String::from_str("fun") {
            Some(TokenType::Fun)
        } else if *check == String::from_str("if") {
            Some(TokenType::If)
        } else if *check == String::from_str("nil") {
            Some(TokenType::Nil)
        } else if *check == String::from_str("or") {
            Some(TokenType::Or)
        } else if *check == String::from_str("print") {
            Some(TokenType::Print)
        } else if *check == String::from_str("return") {
            Some(TokenType::Return)
        } else if *check == String::from_str("super") {
            Some(TokenType::Super)
        } else if *check == String::from_str("this") {
            Some(TokenType::This)
        } else if *check == String::from_str("true") {
            Some(TokenType::True)
        } else if *check == String::from_str("var") {
            Some(TokenType::Var)
        } else if *check == String::from_str("while") {
            Some(TokenType::While)
        } else if *check == String::from_str("break") {
            Some(TokenType::Break)
        } else {
            None
        }
    }

    /// A string literal: everything up to the closing quote, which must
    /// come before the source ends; the quotes are trimmed from the value.
    fn scan_string(&mut self, tokens: &mut Vec<Token>) -> (r: Result<(), LoxResult>)
        requires
            scanner_wf(*old(self)),
            old(self).start < old(self).current,
            scanned_ok(old(tokens)@),
        ensures
            scanner_wf(*final(self)),
            final(self).source@ == old(self).source@,
            old(self).current <= final(self).current,
            scanned_ok(final(tokens)@),
            (r matches Err(e) ==> e is Error),
    {
        while self.peek_char() != '"' && !self.is_at_end()
            invariant
                scanner_wf(*self),
                self.source@ == old(self).source@,
                self.start == old(self).start,
                old(self).current <= self.current,
            decreases self.source@.len() - self.current,
        {
            if self.peek_char() == '\n' {
                self.bump_line();
            }
            let _ = self.advance();
        }
        if self.is_at_end() {
            return Err(LoxResult::error(self.line, "Unterminated string."));
        }
        // the closing quote
        let _ = self.advance();
        let value = self.source.as_str().substring_char(self.start + 1, self.current - 1)
            .to_owned();
        self.add_token(tokens, TokenType::String, Some(Object::Str(value)));
        Ok(())
    }

    /// An integer literal: the value of its digits in decimal. A literal
    /// beyond the 64-bit range is a lexical error.
    fn number(&mut self, tokens: &mut Vec<Token>) -> (r: Result<(), LoxResult>)
        requires
            scanner_wf(*old(self)),
            old(self).current == old(self).start + 1,
            is_digit_sp(old(self).source@[old(self).start as int]),
            scanned_ok(old(tokens)@),
        ensures
            scanner_wf(*final(self)),
            final(self).source@ == old(self).source@,
            old(self).current <= final(self).current,
            scanned_ok(final(tokens)@),
            (r matches Err(e) ==> e is Error),
            r is Ok ==> final(tokens)@.len() == old(tokens)@.len() + 1
                && final(tokens)@.last().ttype == TokenType::Number
                && (final(tokens)@.last().literal matches Some(Object::Num(v)) && v as int
                == digits_val(
                final(self).source@.subrange(final(self).start as int, final(self).current as int),
            )),
    {
        while is_digit(self.peek_char())
            invariant
                scanner_wf(*self),
                self.source@ == old(self).source@,
                self.start == old(self).start,
                self.line == old(self).line,
                old(self).current <= self.current,
                self.start < self.current,
                tokens@ == old(tokens)@,
                forall|k: int|
                    self.start <= k < self.current ==> is_digit_sp(#[trigger] self.source@[k]),
            decreases self.source@.len() - self.current,
        {
            let _ = self.advance();
        }
        let ghost mid = *self;
        let mut value: i64 = 0;
        let mut i: usize = self.start;
        while i < self.current
            invariant
                *self == mid,
                scanner_wf(*self),
                self.source@ == old(self).source@,
                self.start == old(self).start,
                old(self).current <= self.current,
                tokens@ == old(tokens)@,
                scanned_ok(tokens@),
                self.start <= i <= self.current,
                forall|k: int|
                    self.start <= k < self.current ==> is_digit_sp(#[trigger] self.source@[k]),
                value as int == digits_val(
                    self.source@.subrange(self.start as int, i as int),
                ),
                value >= 0,
            decreases self.current - i,
        {
            let c = self.source.as_str().get_char(i);
            let d = (c as u32) - 48;
            let next = match value.checked_mul(10) {
                Some(m) => match m.checked_add(d as i64) {
                    Some(s) => s,
                    None => {
                        return Err(LoxResult::error(self.line, "Number literal too large."));
                    },
                },
                None => {
                    return Err(LoxResult::error(self.line, "Number literal too large."));
                },
            };
            proof {
                assert(self.source@.subrange(self.start as int, i + 1).drop_last()
                    =~= self.source@.subrange(self.start as int, i as int));
            }
            value = next;
            i = i + 1;
        }
        self.add_token(tokens, TokenType::Number, Some(Object::Num(value)));
        Ok(())
    }

    /// An identifier or keyword.
    fn identifier(&mut self, tokens: &mut Vec<Token>)
        requires
            scanner_wf(*old(self)),
            old(self).start < old(self).current,
            scanned_ok(old(tokens)@),
        ensures
            scanner_wf(*final(self)),
            final(self).source@ == old(self).source@,
            old(self).current <= final(self).current,
            scanned_ok(final(tokens)@),
    {
        while is_alpha_numeric(self.peek_char())
            invariant
                scanner_wf(*self),
                self.source@ == old(self).source@,
                self.start == old(self).start,
                self.line == old(self).line,
                old(self).current <= self.current,
            decreases self.source@.len() - self.current,
        {
            let _ = self.advance();
        }
        let text = self.lexeme_text();
        match Scanner::keyword(&text) {
            Some(ttype) => self.add_token(tokens, ttype, None),
            None => self.add_token(tokens, TokenType::Identifier, None),
        }
    }

    /// A block comment, to its matching `*/`; block comments nest. A
    /// comment still open when the source ends is a lexical error.
    fn scan_comment(&mut self) -> (r: Result<(), LoxResult>)
        requires
            scanner_wf(*old(self)),
        ensures
            scanner_wf(*final(self)),
            final(self).source@ == old(self).source@,
            old(self).current <= final(self).current,
            (r matches Err(e) ==> e is Error),
        decreases old(self).source@.len() - old(self).current,
    {
        loop
            invariant
                scanner_wf(*self),
                self.source@ == old(self).source@,
                old(self).current <= self.current,
            decreases self.source@.len() - self.current,
        {
            let c = self.peek_char();
            if c == '*' {
                if self.peek_next() == '/' {
                    let _ = self.advance();
                    let _ = self.advance();
                    return Ok(());
                } else {
                    let _ = self.advance();
                }
            } else if c == '/' {
                if self.peek_next() == '*' {
                    let _ = self.advance();
                    let _ = self.advance();
                    self.scan_comment()?;
                } else {
                    let _ = self.advance();
                }
            } else if c == '\n' {
                self.bump_line();
                let _ = self.advance();
            } else if c == '\0' {
                if self.is_at_end() {
                    return Err(LoxResult::error(self.line, "Unterminated comment"));
                } else {
                    let _ = self.advance();
                }
            } else {
                let _ = self.advance();
            }
        }
    }

    /// Scan one token (or skip whitespace or a comment) starting at the
    /// cursor; an unexpected character is a lexical error.
    fn scan_token(&mut self, tokens: &mut Vec<Token>) -> (r: Result<(), LoxResult>)
        requires
            scanner_wf(*old(self)),
            old(self).start == old(self).current,
            old(self).current < old(self).source@.len(),
            scanned_ok(old(tokens)@),
        ensures
            scanner_wf(*final(self)),
            final(self).source@ == old(self).source@,
            old(self).current < final(self).current,
            scanned_ok(final(tokens)@),
            (r matches Err(e) ==> e is Error),
            !starts_token_or_space(old(self).source@[old(self).current as int]) ==> r is Err,
    {
        let c = self.advance();
        match c {
            '(' => {
                self.add_token(tokens, TokenType::LeftParen, None);
                Ok(())
            },
            ')' => {
                self.add_token(tokens, TokenType::RightParen, None);
                Ok(())
            },
            '{' => {
                self.add_token(tokens, TokenType::LeftBrace, None);
                Ok(())
            },
            '}' => {
                self.add_token(tokens, TokenType::RightBrace, None);
                Ok(())
            },
            ',' => {
                self.add_token(tokens, TokenType::Comma, None);
                Ok(())
            },
            '.' => {
                self.add_token(tokens, TokenType::Dot, None);
                Ok(())
            },
            '-' => {
                self.add_token(tokens, TokenType::Minus, None);
                Ok(())
            },
            '+' => {
                self.add_token(tokens, TokenType::Plus, None);
                Ok(())
            },
            ';' => {
                self.add_token(tokens, TokenType::SemiColon, None);
                Ok(())
            },
            '*' => {
                self.add_token(tokens, TokenType::Star, None);
                Ok(())
            },
            '!' => {
                if self.is_match('=') {
                    self.add_token(tokens, TokenType::BangEqual, None);
                } else {
                    self.add_token(tokens, TokenType::Bang, None);
                }
                Ok(())
            },
            '=' => {
                if self.is_match('=') {
                    self.add_token(tokens, TokenType::Equal, None);
                } else {
                    self.add_token(tokens, TokenType::Assign, None);
                }
                Ok(())
            },
            '>' => {
                if self.is_match('=') {
                    self.add_token(tokens, TokenType::GreaterEqual, None);
                } else {
                    self.add_token(tokens, TokenType::Greater, None);
                }
                Ok(())
            },
            '<' => {
                if self.is_match('=') {
                    self.add_token(tokens, TokenType::LessEqual, None);
                } else {
                    self.add_token(tokens, TokenType::Less, None);
                }
                Ok(())
            },
            '/' => {
                if self.is_match('/') {
                    while self.peek_char() != '\n' && !self.is_at_end()
                        invariant
                            scanner_wf(*self),
                            self.source@ == old(self).source@,
                            old(self).current < self.current,
                        decreases self.source@.len() - self.current,
                    {
                        let _ = self.advance();
                    }
                    Ok(())
                } else if self.is_match('*') {
                    self.scan_comment()
                } else {
                    self.add_token(tokens, TokenType::Slash, None);
                    Ok(())
                }
            },
            ' ' => Ok(()),
            '\r' => Ok(()),
            '\t' => Ok(()),
            '\n' => {
                self.bump_line();
                Ok(())
            },
            '"' => self.scan_string(tokens),
            _ => {
                if is_digit(c) {
                    self.number(tokens)
                } else if is_alpha(c) || c == '_' {
                    self.identifier(tokens);
                    Ok(())
                } else {
                    Err(LoxResult::error(self.line, "Unexpected character."))
                }
            },
        }
    }

    /// Scan the whole source into a token stream ending with the
    /// end-of-input sentinel. Lexical errors do not stop the scan: the
    /// rest of the source is still scanned, and the last error comes back
    /// beside nothing — a caller goes on to parse only an `Ok` stream.
    pub fn scan_tokens(&mut self) -> (r: Result<Vec<Token>, LoxResult>)
        requires
            scanner_wf(*old(self)),
        ensures
            scanner_wf(*final(self)),
            r matches Ok(ts) ==> tokens_ok(ts@),
            r matches Err(e) ==> e is Error,
            old(self).source@.len() == 0 ==> (r matches Ok(ts) && ts@.len() == 1),
            old(self).source@.len() == 1 && !starts_token_or_space(old(self).source@[0]) && old(
                self,
            ).current == 0 ==> r is Err,
    {
        let mut tokens: Vec<Token> = Vec::new();
        let mut had_error: Option<LoxResult> = None;
        while !self.is_at_end()
            invariant
                scanner_wf(*self),
                scanned_ok(tokens@),
                had_error matches Some(e) ==> e is Error,
                old(self).source@.len() == 0 ==> (tokens@.len() == 0 && had_error is None),
                (old(self).source@.len() == 1 && !starts_token_or_space(old(self).source@[0])
                    && old(self).current == 0) ==> (self.current == 0 || had_error is Some),
                self.source@ == old(self).source@,
            decreases self.source@.len() - self.current,
        {
            self.start = self.current;
            match self.scan_token(&mut tokens) {
                Ok(_) => {},
                Err(e) => {
                    had_error = Some(e);
                },
            }
        }
        tokens.push(Token::eof(self.line));
        match had_error {
            Some(e) => Err(e),
            None => {
                proof {
                    assert forall|i: int| 0 <= i < tokens@.len() implies lit_ok(
                        (#[trigger] tokens@[i]).literal,
                    ) by {
                        if i < tokens@.len() - 1 {
                            assert(lit_ok(tokens@[i].literal));
                        }
                    }
                }
                Ok(tokens)
            },
        }
    }
}

/// An ASCII decimal digit.
fn is_digit(c: char) -> (r: bool)
    ensures
        r == is_digit_sp(c),
{
    let u = c as u32;
    48 <= u && u <= 57
}

/// An ASCII letter.
fn is_alpha(c: char) -> (r: bool)
    ensures
        r == is_alpha_sp(c),
{
    let u = c as u32;
    (65 <= u && u <= 90) || (97 <= u && u <= 122)
}

/// A letter or a digit.
fn is_alpha_numeric(c: char) -> (r: bool)
    ensures
        r == (is_alpha_sp(c) || is_digit_sp(c)),
{
    is_alpha(c) || is_digit(c)
}

} // verus!
