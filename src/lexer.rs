//! The lexer: source text to positioned tokens and lexical errors.
use vstd::prelude::*;

use crate::error::{LexerError, LexerErrorView};
use crate::scan::{lemma_scan_len, scan, scan_at, scan_len, Scan, Step};
use crate::token::{kind_of, Token, TokenKind, TokenType, TokenView};

verus! {

/// The position after reading `t` from `(line, column)`: a newline moves to column 1 of
/// the next line, any other character one column on.
pub open spec fn advance(line: int, column: int, t: Seq<char>) -> (int, int)
    decreases t.len(),
{
    if t.len() == 0 {
        (line, column)
    } else if t[0] == '\n' {
        advance(line + 1, 1, t.subrange(1, t.len() as int))
    } else {
        advance(line, column + 1, t.subrange(1, t.len() as int))
    }
}

/// Whether position `(l1, c1)` does not come after `(l2, c2)`.
pub open spec fn not_after(l1: int, c1: int, l2: int, c2: int) -> bool {
    l1 < l2 || (l1 == l2 && c1 <= c2)
}

pub open spec fn eof_at(line: int, column: int) -> TokenView {
    TokenView { kind: TokenKind::EOF, text: Seq::empty(), value: 0, line, column }
}

/// The tokens and errors of `s` from position `i`, read from `(line, column)` on: each
/// scan step emits a token or an error at the position where it starts, and the end of
/// the source gives one end-of-input token.
pub open spec fn lex_from(s: Seq<char>, i: int, line: int, column: int) -> (
    Seq<TokenView>,
    Seq<LexerErrorView>,
)
    decreases s.len() - i,
    via lex_from_decreases
{
    if 0 <= i < s.len() {
        let sc = scan(s, i);
        let n = scan_len(sc);
        let next = advance(line, column, s.subrange(i, i + n));
        let rest = lex_from(s, i + n, next.0, next.1);
        match sc {
            Scan::Skip { .. } => rest,
            Scan::Emit { kind, text, value, .. } => (
                seq![TokenView { kind, text, value, line, column }] + rest.0,
                rest.1,
            ),
            Scan::Fail { message, .. } => (
                rest.0,
                seq![LexerErrorView { message, line, column }] + rest.1,
            ),
        }
    } else {
        (seq![eof_at(line, column)], Seq::empty())
    }
}

#[via_fn]
proof fn lex_from_decreases(s: Seq<char>, i: int, line: int, column: int) {
    if 0 <= i < s.len() {
        lemma_scan_len(s, i);
    }
}

/// The tokens and errors of the whole source `s`.
pub open spec fn lex(s: Seq<char>) -> (Seq<TokenView>, Seq<LexerErrorView>) {
    lex_from(s, 0, 1, 1)
}

pub open spec fn token_views(ts: Seq<Token>) -> Seq<TokenView> {
    ts.map_values(|t: Token| t@)
}

pub open spec fn error_views(es: Seq<LexerError>) -> Seq<LexerErrorView> {
    es.map_values(|e: LexerError| e@)
}

proof fn lemma_advance_not_before(line: int, column: int, t: Seq<char>)
    ensures
        not_after(line, column, advance(line, column, t).0, advance(line, column, t).1),
    decreases t.len(),
{
    if t.len() > 0 {
        if t[0] == '\n' {
            lemma_advance_not_before(line + 1, 1, t.subrange(1, t.len() as int));
        } else {
            lemma_advance_not_before(line, column + 1, t.subrange(1, t.len() as int));
        }
    }
}

/// What holds of the tokens read from any position: they end in the one end-of-input
/// token, none starts before the position they are read from, and each starts no earlier
/// than the one before it.
proof fn lemma_lex_from_shape(s: Seq<char>, i: int, line: int, column: int)
    ensures
        ({
            let ts = lex_from(s, i, line, column).0;
            &&& ts.len() >= 1
            &&& ts.last().kind == TokenKind::EOF
            &&& forall|k: int| 0 <= k < ts.len() - 1 ==> ts[k].kind != TokenKind::EOF
            &&& forall|k: int|
                0 <= k < ts.len() ==> not_after(line, column, #[trigger] ts[k].line, ts[k].column)
            &&& forall|k: int|
                0 <= k < ts.len() - 1 ==> not_after(
                    #[trigger] ts[k].line,
                    ts[k].column,
                    ts[k + 1].line,
                    ts[k + 1].column,
                )
        }),
    decreases s.len() - i,
{
    if 0 <= i < s.len() {
        lemma_scan_len(s, i);
        let sc = scan(s, i);
        let n = scan_len(sc);
        let next = advance(line, column, s.subrange(i, i + n));
        lemma_advance_not_before(line, column, s.subrange(i, i + n));
        lemma_lex_from_shape(s, i + n, next.0, next.1);
        let rest = lex_from(s, i + n, next.0, next.1).0;
        let ts = lex_from(s, i, line, column).0;
        if let Scan::Emit { kind, text, value, .. } = sc {
            let head = TokenView { kind, text, value, line, column };
            assert(ts == seq![head] + rest);
            assert(kind != TokenKind::EOF);
            assert forall|k: int| 0 <= k < ts.len() - 1 implies not_after(
                #[trigger] ts[k].line,
                ts[k].column,
                ts[k + 1].line,
                ts[k + 1].column,
            ) by {
                if k > 0 {
                    assert(ts[k] == rest[k - 1]);
                    assert(ts[k + 1] == rest[k]);
                } else {
                    assert(ts[1] == rest[0]);
                }
            }
            assert forall|k: int| 0 <= k < ts.len() implies not_after(
                line,
                column,
                #[trigger] ts[k].line,
                ts[k].column,
            ) by {
                if k > 0 {
                    assert(ts[k] == rest[k - 1]);
                }
            }
        }
    }
}

/// Tokenizing any source gives a sequence that ends in end-of-input, holds no other
/// end-of-input token, and in which no token starts before the one ahead of it.
pub proof fn lemma_lex_ends_and_ordered(s: Seq<char>)
    ensures
        lex(s).0.len() >= 1,
        lex(s).0.last().kind == TokenKind::EOF,
        forall|k: int| 0 <= k < lex(s).0.len() - 1 ==> lex(s).0[k].kind != TokenKind::EOF,
        forall|k: int|
            0 <= k < lex(s).0.len() - 1 ==> not_after(
                #[trigger] lex(s).0[k].line,
                lex(s).0[k].column,
                lex(s).0[k + 1].line,
                lex(s).0[k + 1].column,
            ),
{
    lemma_lex_from_shape(s, 0, 1, 1);
}

/// Turns source text into tokens.
pub struct Lexer {
    pub source: String,
    pub tokens: Vec<Token>,
    pub errors: Vec<LexerError>,
}

/// The position after reading `chars[i..i + n]` from `(line, column)`.
fn advance_over(chars: &Vec<char>, i: usize, n: usize, line: usize, column: usize) -> (r: (
    usize,
    usize,
))
    requires
        i + n <= chars.len(),
        1 <= line <= i + 1,
        1 <= column <= i + 1,
        chars.len() < usize::MAX,
    ensures
        (r.0 as int, r.1 as int) == advance(
            line as int,
            column as int,
            chars@.subrange(i as int, i + n),
        ),
        1 <= r.0 <= i + n + 1,
        1 <= r.1 <= i + n + 1,
{
    let ghost s = chars@;
    let mut l = line;
    let mut c = column;
    let mut k = i;
    while k < i + n
        invariant
            i <= k <= i + n <= chars.len() < usize::MAX,
            s == chars@,
            1 <= l <= k + 1,
            1 <= c <= k + 1,
            advance(l as int, c as int, s.subrange(k as int, i + n)) == advance(
                line as int,
                column as int,
                s.subrange(i as int, i + n),
            ),
        decreases i + n - k,
    {
        let ghost t = s.subrange(k as int, i + n);
        assert(t.subrange(1, t.len() as int) =~= s.subrange(k + 1, i + n));
        if chars[k] == '\n' {
            l = l + 1;
            c = 1;
        } else {
            c = c + 1;
        }
        k = k + 1;
    }
    (l, c)
}

impl Lexer {
    pub fn new(source: &str) -> (r: Lexer)
        ensures
            r.source@ == source@,
            r.tokens@.len() == 0,
            r.errors@.len() == 0,
    {
        Lexer { source: String::from_str(source), tokens: Vec::new(), errors: Vec::new() }
    }

    /// Reads the whole source, replacing `tokens` and `errors` with what the lexical
    /// grammar gives for it: the tokens end in exactly one end-of-input token, and every
    /// character that starts no token and is no whitespace or comment is reported.
    pub fn tokenize(&mut self)
        requires
            old(self).source@.len() < usize::MAX,
        ensures
            final(self).source == old(self).source,
            token_views(final(self).tokens@) == lex(old(self).source@).0,
            error_views(final(self).errors@) == lex(old(self).source@).1,
            final(self).tokens@.len() >= 1,
            kind_of(final(self).tokens@.last().token_type) == TokenKind::EOF,
            forall|k: int|
                0 <= k < final(self).tokens@.len() - 1 ==> kind_of(
                    #[trigger] final(self).tokens@[k].token_type,
                ) != TokenKind::EOF,
            forall|k: int|
                0 <= k < final(self).tokens@.len() - 1 ==> not_after(
                    #[trigger] final(self).tokens@[k].line as int,
                    final(self).tokens@[k].column as int,
                    final(self).tokens@[k + 1].line as int,
                    final(self).tokens@[k + 1].column as int,
                ),
    {
        let mut chars: Vec<char> = Vec::new();
        for ch in it: self.source.as_str().chars()
            invariant
                chars@ == it.seq().take(it.index() as int),
        {
            chars.push(ch);
        }
        let ghost s = chars@;
        assert(s == self.source@) by {
            assert(chars@ =~= self.source@);
        }
        let mut tokens: Vec<Token> = Vec::new();
        let mut errors: Vec<LexerError> = Vec::new();
        let mut i: usize = 0;
        let mut line: usize = 1;
        let mut column: usize = 1;
        assert(token_views(tokens@) =~= Seq::<TokenView>::empty());
        assert(error_views(errors@) =~= Seq::<LexerErrorView>::empty());
        while i < chars.len()
            invariant
                s == chars@,
                chars.len() < usize::MAX,
                i <= chars.len(),
                1 <= line <= i + 1,
                1 <= column <= i + 1,
                lex(s).0 == token_views(tokens@) + lex_from(s, i as int, line as int, column as int).0,
                lex(s).1 == error_views(errors@) + lex_from(s, i as int, line as int, column as int).1,
            decreases chars.len() - i,
        {
            let ghost before_t = token_views(tokens@);
            let ghost before_e = error_views(errors@);
            let ghost rest = lex_from(s, i as int, line as int, column as int);
            proof {
                lemma_scan_len(s, i as int);
            }
            let step = scan_at(&chars, i);
            let n = match &step {
                Step::Skip(n) => *n,
                Step::Emit(_, n) => *n,
                Step::Fail(_, n) => *n,
            };
            let (l2, c2) = advance_over(&chars, i, n, line, column);
            let ghost next = lex_from(s, i + n, l2 as int, c2 as int);
            match step {
                Step::Skip(_) => {},
                Step::Emit(t, _) => {
                    let tok = Token::new(t, line, column);
                    tokens.push(tok);
                    assert(token_views(tokens@) =~= before_t.push(tok@));
                    assert(rest.0 =~= seq![tok@] + next.0);
                    assert(before_t.push(tok@) + next.0 =~= before_t + (seq![tok@] + next.0));
                },
                Step::Fail(m, _) => {
                    let e = LexerError { message: m, line, column };
                    errors.push(e);
                    assert(error_views(errors@) =~= before_e.push(e@));
                    assert(rest.1 =~= seq![e@] + next.1);
                    assert(before_e.push(e@) + next.1 =~= before_e + (seq![e@] + next.1));
                },
            }
            i = i + n;
            line = l2;
            column = c2;
        }
        let eof = Token::new(TokenType::EOF, line, column);
        let ghost before_t = token_views(tokens@);
        tokens.push(eof);
        assert(token_views(tokens@) =~= before_t.push(eof@));
        assert(error_views(errors@) =~= error_views(errors@) + Seq::<LexerErrorView>::empty());
        proof {
            lemma_lex_ends_and_ordered(s);
            let v = token_views(tokens@);
            assert(v == lex(s).0);
            assert(v.len() == tokens@.len());
            assert forall|k: int| 0 <= k < tokens@.len() implies #[trigger] v[k] == tokens@[k]@ by {}
            assert(tokens@.last()@ == v.last());
            assert forall|k: int| 0 <= k < tokens@.len() - 1 implies not_after(
                #[trigger] tokens@[k].line as int,
                tokens@[k].column as int,
                tokens@[k + 1].line as int,
                tokens@[k + 1].column as int,
            ) by {
                assert(v[k] == tokens@[k]@);
                assert(v[k + 1] == tokens@[k + 1]@);
                assert(not_after(
                    lex(s).0[k].line,
                    lex(s).0[k].column,
                    lex(s).0[k + 1].line,
                    lex(s).0[k + 1].column,
                ));
            }
            assert forall|k: int| 0 <= k < tokens@.len() - 1 implies kind_of(
                #[trigger] tokens@[k].token_type,
            ) != TokenKind::EOF by {
                assert(v[k] == tokens@[k]@);
                assert(lex(s).0[k].kind != TokenKind::EOF);
            }
        }
        self.tokens = tokens;
        self.errors = errors;
    }
}

} // verus!
