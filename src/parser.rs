//! The parser: a cursor over a fully read token sequence, recursive descent for
//! statements, and error recovery that skips to the next statement boundary.
use vstd::prelude::*;

use crate::lexer::Lexer;
use crate::scan::push_char;
use crate::token::{kind_name, kind_of, Token, TokenKind, TokenType};

verus! {

/// How deeply statements and expressions may nest before the parser reports
/// "nesting too deep" instead of descending further.
pub const MAX_DEPTH: u32 = 200;

/// Parses a token sequence that ends in end-of-input into statements.
///
/// `position` indexes the current token; it never passes the last token, which is the
/// end of input. Syntax errors are collected in `errors` as messages.
pub struct Parser {
    pub tokens: Vec<Token>,
    pub position: usize,
    pub errors: Vec<String>,
}

/// The decimal digit for `d < 10`.
pub open spec fn digit_char(d: nat) -> char {
    seq!['0', '1', '2', '3', '4', '5', '6', '7', '8', '9'][d as int]
}

/// The decimal notation of `n`, without leading zeros.
pub open spec fn decimal_text(n: nat) -> Seq<char>
    decreases n,
{
    if n < 10 {
        seq![digit_char(n)]
    } else {
        decimal_text(n / 10).push(digit_char(n % 10))
    }
}

/// Appends the decimal notation of `n` to `s`.
pub fn push_decimal(s: &mut String, n: usize)
    ensures
        final(s)@ == old(s)@ + decimal_text(n as nat),
    decreases n,
{
    if n >= 10 {
        push_decimal(s, n / 10);
    }
    let d = n % 10;
    let c = match d {
        0 => '0',
        1 => '1',
        2 => '2',
        3 => '3',
        4 => '4',
        5 => '5',
        6 => '6',
        7 => '7',
        8 => '8',
        _ => '9',
    };
    push_char(s, c);
    proof {
        if n >= 10 {
            assert(old(s)@ + decimal_text(n as nat) =~= (old(s)@ + decimal_text((n / 10) as nat)).push(
                c,
            ));
        } else {
            assert(old(s)@ + decimal_text(n as nat) =~= old(s)@.push(c));
        }
    }
}

/// The tokens at which panic-mode recovery stops.
pub open spec fn is_boundary(k: TokenKind) -> bool {
    k == TokenKind::Semicolon || k == TokenKind::RightBrace || k == TokenKind::EOF
}

/// Whether `k` starts a declaration as a built-in type name.
pub open spec fn is_type_keyword(k: TokenKind) -> bool {
    k == TokenKind::IntKeyword || k == TokenKind::FloatKeyword || k == TokenKind::StringKeyword
        || k == TokenKind::BoolKeyword || k == TokenKind::DictKeyword
}

/// The type name that a token spells: a built-in type keyword, or a user type's name.
pub open spec fn type_text(t: TokenType) -> Seq<char> {
    match t {
        TokenType::Identifier(s) => s@,
        TokenType::IntKeyword => "int"@,
        TokenType::FloatKeyword => "float"@,
        TokenType::StringKeyword => "string"@,
        TokenType::BoolKeyword => "bool"@,
        TokenType::DictKeyword => "dict"@,
        _ => Seq::empty(),
    }
}

impl Parser {
    /// The text carried by the token at index `i`.
    pub open spec fn text_at(&self, i: int) -> Seq<char> {
        crate::token::text_of(self.tokens@[i].token_type)
    }

    /// The cursor stands on a token of a sequence that ends in end-of-input, and every
    /// recorded error says something.
    pub open spec fn wf(&self) -> bool {
        &&& self.tokens@.len() >= 1
        &&& kind_of(self.tokens@.last().token_type) == TokenKind::EOF
        &&& self.position < self.tokens@.len()
        &&& forall|i: int| 0 <= i < self.errors@.len() ==> (#[trigger] self.errors@[i])@.len() > 0
    }

    /// The kind of the token at index `i`; past the end, end-of-input.
    pub open spec fn kind_at(&self, i: int) -> TokenKind {
        if 0 <= i < self.tokens@.len() {
            kind_of(self.tokens@[i].token_type)
        } else {
            TokenKind::EOF
        }
    }

    /// The kind of the current token.
    pub open spec fn current_kind(&self) -> TokenKind {
        self.kind_at(self.position as int)
    }

    /// `next` is a later state of the same parse: same tokens, the cursor not moved back,
    /// the errors recorded so far kept.
    pub open spec fn follows(&self, next: &Parser) -> bool {
        &&& next.wf()
        &&& next.tokens@ == self.tokens@
        &&& self.position <= next.position
        &&& self.errors@.len() <= next.errors@.len()
        &&& forall|i: int| 0 <= i < self.errors@.len() ==> next.errors@[i] == self.errors@[i]
    }

    /// `next` follows this state, and a failure (`failed`) was reported by a new error.
    pub open spec fn step(&self, next: &Parser, failed: bool) -> bool {
        &&& self.follows(next)
        &&& failed ==> next.errors@.len() > self.errors@.len()
    }

    /// Takes the tokens of a lexer. A sequence that does not end in end-of-input gets one.
    pub fn new(lexer: Lexer) -> (r: Parser)
        ensures
            r.wf(),
            r.position == 0,
            r.errors@.len() == 0,
            lexer.tokens@.len() >= 1 && kind_of(lexer.tokens@.last().token_type)
                == TokenKind::EOF ==> r.tokens@ == lexer.tokens@,
            r.tokens@.subrange(0, lexer.tokens@.len() as int) == lexer.tokens@,
    {
        let mut tokens = lexer.tokens;
        let n = tokens.len();
        let ends = n > 0 && matches!(tokens[n - 1].token_type, TokenType::EOF);
        if !ends {
            let (line, column) = if n > 0 {
                (tokens[n - 1].line, tokens[n - 1].column)
            } else {
                (1, 1)
            };
            tokens.push(Token::new(TokenType::EOF, line, column));
        }
        proof {
            assert(tokens@.subrange(0, n as int) =~= lexer.tokens@);
        }
        Parser { tokens, position: 0, errors: Vec::new() }
    }

    /// The syntax errors recorded so far, in the order they were found.
    pub fn get_errors(&self) -> (r: &Vec<String>)
        ensures
            r == &self.errors,
    {
        &self.errors
    }

    /// The kind of the current token.
    pub(crate) fn kind(&self) -> (r: TokenKind)
        requires
            self.wf(),
        ensures
            r == self.current_kind(),
    {
        self.tokens[self.position].token_type.kind()
    }

    /// The kind of the token `ahead` places after the current one.
    pub(crate) fn kind_ahead(&self, ahead: usize) -> (r: TokenKind)
        requires
            self.wf(),
        ensures
            r == self.kind_at(self.position + ahead),
    {
        if ahead < self.tokens.len() - self.position {
            self.tokens[self.position + ahead].token_type.kind()
        } else {
            TokenKind::EOF
        }
    }

    pub(crate) fn at(&self, k: TokenKind) -> (r: bool)
        requires
            self.wf(),
        ensures
            r == (self.current_kind() == k),
    {
        self.kind() == k
    }

    /// A copy of the current token.
    pub(crate) fn current_token(&self) -> (r: Token)
        requires
            self.wf(),
        ensures
            r == self.tokens@[self.position as int],
    {
        self.tokens[self.position].duplicate()
    }

    /// Moves to the next token; the cursor stays on the last one.
    pub(crate) fn next_token(&mut self)
        requires
            old(self).wf(),
        ensures
            old(self).follows(final(self)),
            final(self).errors@ == old(self).errors@,
            final(self).position == if old(self).position + 1 < old(self).tokens@.len() {
                old(self).position + 1
            } else {
                old(self).position as int
            },
            old(self).current_kind() != TokenKind::EOF ==> final(self).position
                == old(self).position + 1,
    {
        if self.position < self.tokens.len() - 1 {
            self.position = self.position + 1;
        }
    }

    /// Records a syntax error.
    pub(crate) fn error(&mut self, message: String)
        requires
            old(self).wf(),
            message@.len() > 0,
        ensures
            final(self).tokens@ == old(self).tokens@,
            final(self).position == old(self).position,
            final(self).errors@ == old(self).errors@.push(message),
            old(self).step(final(self), true),
    {
        self.errors.push(message);
        assert(self.errors@[self.errors@.len() - 1] == message);
    }

    /// Records `message` with the position of the current token appended.
    pub(crate) fn error_here(&mut self, message: String)
        requires
            old(self).wf(),
            message@.len() > 0,
        ensures
            final(self).tokens@ == old(self).tokens@,
            final(self).position == old(self).position,
            final(self).errors@.len() == old(self).errors@.len() + 1,
            final(self).errors@.last()@ == message@ + " at line "@ + decimal_text(
                old(self).tokens@[old(self).position as int].line as nat,
            ) + ", column "@ + decimal_text(
                old(self).tokens@[old(self).position as int].column as nat,
            ),
            old(self).step(final(self), true),
    {
        let mut m = message;
        let line = self.tokens[self.position].line;
        let column = self.tokens[self.position].column;
        m.append(" at line ");
        push_decimal(&mut m, line);
        m.append(", column ");
        push_decimal(&mut m, column);
        self.error(m);
    }

    /// Records "Expected <what>, got <current token> at line <l>, column <c>".
    pub(crate) fn error_expected(&mut self, what: &str)
        requires
            old(self).wf(),
        ensures
            final(self).tokens@ == old(self).tokens@,
            final(self).position == old(self).position,
            final(self).errors@.len() == old(self).errors@.len() + 1,
            old(self).step(final(self), true),
    {
        let mut m = String::from_str("Expected ");
        m.append(what);
        m.append(", got ");
        m.append(kind_name(self.kind()));
        proof {
            reveal_strlit("Expected ");
        }
        self.error_here(m);
    }

    /// Records that nesting went too deep.
    pub(crate) fn too_deep(&mut self)
        requires
            old(self).wf(),
        ensures
            final(self).tokens@ == old(self).tokens@,
            final(self).position == old(self).position,
            old(self).step(final(self), true),
    {
        let m = String::from_str("Nesting too deep");
        proof {
            reveal_strlit("Nesting too deep");
        }
        self.error_here(m);
    }

    /// Consumes a token of kind `k`, or reports what was found instead.
    pub(crate) fn expect(&mut self, k: TokenKind) -> (r: bool)
        requires
            old(self).wf(),
        ensures
            r == (old(self).current_kind() == k),
            old(self).step(final(self), !r),
            r ==> final(self).errors@ == old(self).errors@,
            !r ==> final(self).errors@.len() == old(self).errors@.len() + 1,
            r && k != TokenKind::EOF ==> final(self).position == old(self).position + 1,
            !r ==> final(self).position == old(self).position,
    {
        if self.at(k) {
            self.next_token();
            true
        } else {
            self.error_expected(kind_name(k));
            false
        }
    }

    /// Consumes an optional token of kind `k`, saying whether it was there.
    pub(crate) fn skip_if(&mut self, k: TokenKind) -> (r: bool)
        requires
            old(self).wf(),
        ensures
            r == (old(self).current_kind() == k),
            old(self).follows(final(self)),
            final(self).errors@ == old(self).errors@,
            r && k != TokenKind::EOF ==> final(self).position == old(self).position + 1,
            !r ==> final(self).position == old(self).position,
    {
        if self.at(k) {
            self.next_token();
            true
        } else {
            false
        }
    }

    /// The statement terminator: a `;` is consumed; a missing one is reported, and the
    /// statement it should have ended is kept.
    pub(crate) fn end_statement(&mut self)
        requires
            old(self).wf(),
        ensures
            old(self).follows(final(self)),
            old(self).current_kind() == TokenKind::Semicolon ==> final(self).errors@ == old(self).errors@ && final(self).position == old(self).position + 1,
            old(self).current_kind() != TokenKind::Semicolon ==> final(self).errors@.len() == old(self).errors@.len() + 1 && final(self).position == old(self).position,
    {
        self.expect(TokenKind::Semicolon);
    }

    /// Consumes an identifier and returns its name, or reports what was found instead.
    pub(crate) fn expect_identifier(&mut self) -> (r: Option<String>)
        requires
            old(self).wf(),
        ensures
            (r is Some) == (old(self).current_kind() == TokenKind::Identifier),
            old(self).step(final(self), r is None),
            r is Some ==> final(self).errors@ == old(self).errors@,
            r is None ==> final(self).errors@.len() == old(self).errors@.len() + 1 && final(self).position == old(self).position,
            r matches Some(name) ==> name == crate::grammar::name_of(
                old(self).tokens@[old(self).position as int].token_type,
            ),
            r matches Some(name) ==> name@ == crate::token::text_of(
                old(self).tokens@[old(self).position as int].token_type,
            ) && final(self).position == old(self).position + 1,
    {
        let name = match &self.tokens[self.position].token_type {
            TokenType::Identifier(name) => Some(name.clone()),
            _ => None,
        };
        match name {
            Some(name) => {
                self.next_token();
                Some(name)
            },
            None => {
                self.error_expected("identifier");
                None
            },
        }
    }

    /// A type name at the cursor: a built-in type keyword, or an identifier naming a
    /// user type. It is consumed when present.
    pub(crate) fn parse_type(&mut self) -> (r: Option<String>)
        requires
            old(self).wf(),
        ensures
            (r is Some) == (is_type_keyword(old(self).current_kind()) || old(self).current_kind()
                == TokenKind::Identifier),
            old(self).follows(final(self)),
            final(self).errors@ == old(self).errors@,
            r is Some ==> final(self).position == old(self).position + 1,
            r is None ==> final(self).position == old(self).position,
            r matches Some(ty) ==> ty@ == type_text(old(self).tokens@[old(self).position as int].token_type),
    {
        let name = match &self.tokens[self.position].token_type {
            TokenType::Identifier(name) => Some(name.clone()),
            TokenType::IntKeyword => Some(String::from_str("int")),
            TokenType::FloatKeyword => Some(String::from_str("float")),
            TokenType::StringKeyword => Some(String::from_str("string")),
            TokenType::BoolKeyword => Some(String::from_str("bool")),
            TokenType::DictKeyword => Some(String::from_str("dict")),
            _ => None,
        };
        if name.is_some() {
            self.next_token();
        }
        name
    }

    /// Panic-mode recovery: skips to the next `;` (consumed), `}` or end of input, and
    /// moves on by at least one token when the cursor has not moved since `start`.
    pub(crate) fn synchronize(&mut self, start: usize)
        requires
            old(self).wf(),
            start <= old(self).position,
        ensures
            old(self).follows(final(self)),
            final(self).errors@ == old(self).errors@,
            old(self).current_kind() != TokenKind::EOF ==> final(self).position > start,
            exists|stop: int|
                {
                    &&& old(self).position <= stop < old(self).tokens@.len()
                    &&& is_boundary(old(self).kind_at(stop))
                    &&& forall|j: int|
                        old(self).position <= j < stop ==> !is_boundary(
                            #[trigger] old(self).kind_at(j),
                        )
                    &&& final(self).position == if (old(self).kind_at(stop) == TokenKind::Semicolon
                        || stop == start) && stop + 1 < old(self).tokens@.len() {
                        stop + 1
                    } else {
                        stop
                    }
                },
            final(self).position == crate::grammar::resume_at(
                old(self).tokens@,
                start as int,
                old(self).position as int,
            ),
    {
        while !self.at(TokenKind::Semicolon) && !self.at(TokenKind::RightBrace) && !self.at(
            TokenKind::EOF,
        )
            invariant
                self.wf(),
                old(self).follows(self),
                self.errors@ == old(self).errors@,
                self.position == old(self).position ==> self.current_kind() == old(self).current_kind(),
                forall|j: int|
                    old(self).position <= j < self.position ==> !is_boundary(
                        #[trigger] old(self).kind_at(j),
                    ),
                crate::grammar::boundary_from(self.tokens@, self.position as int)
                    == crate::grammar::boundary_from(old(self).tokens@, old(self).position as int),
            decreases self.tokens@.len() - self.position,
        {
            self.next_token();
        }
        let ghost stop = self.position as int;
        assert(is_boundary(old(self).kind_at(stop)));
        if self.at(TokenKind::Semicolon) || self.position == start {
            self.next_token();
        }
    }
}

} // verus!
