//! The grammar, stated as spec functions over the token sequence. For expressions: what
//! expression, if any, starts at a position, and where it ends; the parser is proved to
//! build exactly these expressions. For statements that hold no statement: what they are
//! where they parse without a syntax error; the parser is proved to build exactly these,
//! and to record no error, wherever the grammar gives one. The same holds of blocks,
//! `case` arms, functions, `if`, `while`, `do`, `for` and for-of loops, switches, objects,
//! classes and interfaces whose bodies are made of such statements.
use vstd::prelude::*;

use crate::ast::{
    ClassMember, ExportSpecifier, Expression, ImportSpecifier, InterfaceMember, LiteralValue,
    Statement, Visibility,
};
use crate::expression::{infix_precedence, is_assignment};
use crate::parser::{is_type_keyword, type_text};
use crate::token::{kind_of, text_of, Token, TokenKind, TokenType};

verus! {

/// An expression as plain values: its lists are sequences.
pub enum ExprView {
    Literal { token: Token, value: LiteralValue },
    Identifier { token: Token, name: String },
    Binary { token: Token, left: Box<ExprView>, operator: TokenType, right: Box<ExprView> },
    Unary { token: Token, operator: TokenType, operand: Box<ExprView> },
    Assignment { token: Token, left: Box<ExprView>, right: Box<ExprView> },
    Call { token: Token, callee: Box<ExprView>, arguments: Seq<ExprView> },
    Index { token: Token, array: Box<ExprView>, index: Box<ExprView> },
    Member { token: Token, object: Box<ExprView>, member: String },
    Dict { token: Token, pairs: Seq<(ExprView, ExprView)> },
    New { token: Token, class_name: String, arguments: Seq<ExprView> },
    This { token: Token },
    /// Array literals and conditionals, which the grammar does not produce.
    Other,
}

/// The view of an expression.
pub open spec fn expr_view(e: Expression) -> ExprView
    decreases e,
{
    match e {
        Expression::Literal { token, value } => ExprView::Literal { token, value },
        Expression::Identifier { token, name } => ExprView::Identifier { token, name },
        Expression::BinaryOperation { token, left, operator, right } => ExprView::Binary {
            token,
            left: Box::new(expr_view(*left)),
            operator,
            right: Box::new(expr_view(*right)),
        },
        Expression::UnaryOperation { token, operator, operand } => ExprView::Unary {
            token,
            operator,
            operand: Box::new(expr_view(*operand)),
        },
        Expression::Assignment { token, left, right } => ExprView::Assignment {
            token,
            left: Box::new(expr_view(*left)),
            right: Box::new(expr_view(*right)),
        },
        Expression::FunctionCall { token, callee, arguments } => ExprView::Call {
            token,
            callee: Box::new(expr_view(*callee)),
            arguments: Seq::new(
                arguments@.len(),
                |k: int|
                    if 0 <= k < arguments@.len() {
                        expr_view(arguments@[k])
                    } else {
                        ExprView::Other
                    },
            ),
        },
        Expression::IndexAccess { token, array, index } => ExprView::Index {
            token,
            array: Box::new(expr_view(*array)),
            index: Box::new(expr_view(*index)),
        },
        Expression::MemberAccess { token, object, member } => ExprView::Member {
            token,
            object: Box::new(expr_view(*object)),
            member,
        },
        Expression::DictLiteral { token, pairs } => ExprView::Dict {
            token,
            pairs: Seq::new(
                pairs@.len(),
                |k: int|
                    if 0 <= k < pairs@.len() {
                        (expr_view(pairs@[k].0), expr_view(pairs@[k].1))
                    } else {
                        (ExprView::Other, ExprView::Other)
                    },
            ),
        },
        Expression::NewExpression { token, class_name, arguments } => ExprView::New {
            token,
            class_name,
            arguments: Seq::new(
                arguments@.len(),
                |k: int|
                    if 0 <= k < arguments@.len() {
                        expr_view(arguments@[k])
                    } else {
                        ExprView::Other
                    },
            ),
        },
        Expression::This { token } => ExprView::This { token },
        _ => ExprView::Other,
    }
}

/// The views of a sequence of expressions.
pub open spec fn views(s: Seq<Expression>) -> Seq<ExprView> {
    Seq::new(s.len(), |k: int| expr_view(s[k]))
}

/// The views of a sequence of key-value pairs.
pub open spec fn pair_views(s: Seq<(Expression, Expression)>) -> Seq<(ExprView, ExprView)> {
    Seq::new(s.len(), |k: int| (expr_view(s[k].0), expr_view(s[k].1)))
}

/// The view of a call lists the views of its arguments.
pub proof fn lemma_call_view(token: Token, callee: Expression, arguments: Vec<Expression>)
    ensures
        expr_view(Expression::FunctionCall { token, callee: Box::new(callee), arguments })
            == (ExprView::Call {
            token,
            callee: Box::new(expr_view(callee)),
            arguments: views(arguments@),
        }),
{
    let v = expr_view(Expression::FunctionCall { token, callee: Box::new(callee), arguments });
    if let ExprView::Call { arguments: a, .. } = v {
        assert(a =~= views(arguments@));
    }
}

/// The view of a `new` expression lists the views of its arguments.
pub proof fn lemma_new_view(token: Token, class_name: String, arguments: Vec<Expression>)
    ensures
        expr_view(Expression::NewExpression { token, class_name, arguments }) == (ExprView::New {
            token,
            class_name,
            arguments: views(arguments@),
        }),
{
    let v = expr_view(Expression::NewExpression { token, class_name, arguments });
    if let ExprView::New { arguments: a, .. } = v {
        assert(a =~= views(arguments@));
    }
}

/// The view of a dictionary literal lists the views of its pairs.
pub proof fn lemma_dict_view(token: Token, pairs: Vec<(Expression, Expression)>)
    ensures
        expr_view(Expression::DictLiteral { token, pairs }) == (ExprView::Dict {
            token,
            pairs: pair_views(pairs@),
        }),
{
    let v = expr_view(Expression::DictLiteral { token, pairs });
    if let ExprView::Dict { pairs: a, .. } = v {
        assert(a =~= pair_views(pairs@));
    }
}

/// The kind of the token at index `i`; past the end, end-of-input.
pub open spec fn kind_in(ts: Seq<Token>, i: int) -> TokenKind {
    if 0 <= i < ts.len() {
        kind_of(ts[i].token_type)
    } else {
        TokenKind::EOF
    }
}

/// The index after `i`; the cursor stays on the last token.
pub open spec fn next_in(ts: Seq<Token>, i: int) -> int {
    if i + 1 < ts.len() {
        i + 1
    } else {
        i
    }
}

/// The name an identifier token carries.
pub open spec fn name_of(t: TokenType) -> String {
    match t {
        TokenType::Identifier(s) => s,
        _ => arbitrary(),
    }
}

/// The value a literal token carries.
pub open spec fn literal_value(t: TokenType) -> LiteralValue {
    match t {
        TokenType::Int(n) => LiteralValue::Int(n),
        TokenType::Float(s) => LiteralValue::Float(s),
        TokenType::String(s) => LiteralValue::String(s),
        TokenType::TrueKeyword => LiteralValue::Bool(true),
        _ => LiteralValue::Bool(false),
    }
}

/// The expression that starts at index `i` and takes every construct that binds tighter
/// than `min`, with the index where it ends; `None` where there is none, or where it nests
/// deeper than `depth`.
pub open spec fn expression_at(ts: Seq<Token>, i: int, min: int, depth: nat) -> Option<
    (ExprView, int),
>
    decreases depth, 4int, 0int,
{
    if depth == 0 {
        None
    } else {
        match primary_at_spec(ts, i, (depth - 1) as nat) {
            None => None,
            Some((e, j)) => climb(ts, e, j, min, depth),
        }
    }
}

/// Extends `left`, which ends at `i`, by every infix or postfix construct that binds
/// tighter than `min`: assignments to the right, everything else to the left.
pub open spec fn climb(ts: Seq<Token>, left: ExprView, i: int, min: int, depth: nat) -> Option<
    (ExprView, int),
>
    decreases depth, 2int, ts.len() - i,
{
    let k = kind_in(ts, i);
    let p = infix_precedence(k);
    if depth == 0 || !(0 <= i < ts.len()) || p <= min {
        Some((left, i))
    } else {
        let token = ts[i];
        let j = next_in(ts, i);
        let step: Option<(ExprView, int)> = if is_assignment(k) {
            match expression_at(ts, j, 0, (depth - 1) as nat) {
                Some((right, e)) => Some(
                    (
                        ExprView::Assignment {
                            token,
                            left: Box::new(left),
                            right: Box::new(right),
                        },
                        e,
                    ),
                ),
                None => None,
            }
        } else if k == TokenKind::LeftParen {
            match arguments_at(ts, j, (depth - 1) as nat) {
                Some((arguments, e)) => Some(
                    (ExprView::Call { token, callee: Box::new(left), arguments }, e),
                ),
                None => None,
            }
        } else if k == TokenKind::LeftBracket {
            match expression_at(ts, j, 0, (depth - 1) as nat) {
                Some((index, e)) => if kind_in(ts, e) == TokenKind::RightBracket {
                    Some(
                        (
                            ExprView::Index {
                                token,
                                array: Box::new(left),
                                index: Box::new(index),
                            },
                            next_in(ts, e),
                        ),
                    )
                } else {
                    None
                },
                None => None,
            }
        } else if k == TokenKind::Dot {
            if kind_in(ts, j) == TokenKind::Identifier {
                Some(
                    (
                        ExprView::Member {
                            token,
                            object: Box::new(left),
                            member: name_of(ts[j].token_type),
                        },
                        next_in(ts, j),
                    ),
                )
            } else {
                None
            }
        } else {
            match expression_at(ts, j, p, (depth - 1) as nat) {
                Some((right, e)) => Some(
                    (
                        ExprView::Binary {
                            token,
                            left: Box::new(left),
                            operator: token.token_type,
                            right: Box::new(right),
                        },
                        e,
                    ),
                ),
                None => None,
            }
        };
        match step {
            Some((e, after)) => if i < after < ts.len() {
                climb(ts, e, after, min, depth)
            } else {
                None
            },
            None => None,
        }
    }
}

/// The primary expression at index `i`.
pub open spec fn primary_at_spec(ts: Seq<Token>, i: int, depth: nat) -> Option<(ExprView, int)>
    decreases depth, 3int, 0int,
{
    let k = kind_in(ts, i);
    let token = ts[i];
    let j = next_in(ts, i);
    if depth == 0 {
        None
    } else if k == TokenKind::Identifier {
        Some((ExprView::Identifier { token, name: name_of(token.token_type) }, j))
    } else if k == TokenKind::Int || k == TokenKind::Float || k == TokenKind::String || k
        == TokenKind::TrueKeyword || k == TokenKind::FalseKeyword {
        Some((ExprView::Literal { token, value: literal_value(token.token_type) }, j))
    } else if k == TokenKind::Minus || k == TokenKind::LogicalNot {
        match expression_at(ts, j, 7, (depth - 1) as nat) {
            Some((operand, e)) => Some(
                (
                    ExprView::Unary {
                        token,
                        operator: token.token_type,
                        operand: Box::new(operand),
                    },
                    e,
                ),
            ),
            None => None,
        }
    } else if k == TokenKind::LeftParen {
        match expression_at(ts, j, 0, (depth - 1) as nat) {
            Some((inner, e)) => if kind_in(ts, e) == TokenKind::RightParen {
                Some((inner, next_in(ts, e)))
            } else {
                None
            },
            None => None,
        }
    } else if k == TokenKind::LeftBrace {
        dict_at(ts, i, (depth - 1) as nat)
    } else if k == TokenKind::NewKeyword {
        if kind_in(ts, j) == TokenKind::Identifier && kind_in(ts, next_in(ts, j))
            == TokenKind::LeftParen {
            match arguments_at(ts, next_in(ts, next_in(ts, j)), (depth - 1) as nat) {
                Some((arguments, e)) => Some(
                    (
                        ExprView::New {
                            token,
                            class_name: name_of(ts[j].token_type),
                            arguments,
                        },
                        e,
                    ),
                ),
                None => None,
            }
        } else {
            None
        }
    } else if k == TokenKind::ThisKeyword {
        Some((ExprView::This { token }, j))
    } else {
        None
    }
}

/// The arguments of a call whose `(` ends just before `i`, up to the index after the `)`.
pub open spec fn arguments_at(ts: Seq<Token>, i: int, depth: nat) -> Option<
    (Seq<ExprView>, int),
>
    decreases depth, 1int, 0int,
{
    if depth == 0 {
        None
    } else if kind_in(ts, i) == TokenKind::RightParen {
        Some((Seq::empty(), next_in(ts, i)))
    } else {
        arguments_from(ts, i, depth, Seq::empty())
    }
}

/// The rest of an argument list from index `i`, after the arguments `done`.
pub open spec fn arguments_from(ts: Seq<Token>, i: int, depth: nat, done: Seq<ExprView>) -> Option<
    (Seq<ExprView>, int),
>
    decreases depth, 0int, ts.len() - i,
{
    if depth == 0 || !(0 <= i < ts.len()) {
        None
    } else {
        match expression_at(ts, i, 0, (depth - 1) as nat) {
            None => None,
            Some((a, j)) => if kind_in(ts, j) == TokenKind::Comma {
                let after = next_in(ts, j);
                if i < after < ts.len() {
                    arguments_from(ts, after, depth, done.push(a))
                } else {
                    None
                }
            } else if kind_in(ts, j) == TokenKind::RightParen {
                Some((done.push(a), next_in(ts, j)))
            } else {
                None
            },
        }
    }
}

/// The dictionary literal whose `{` is at index `i`: it needs a key (an identifier or a
/// string) or the closing `}` right after the `{`.
pub open spec fn dict_at(ts: Seq<Token>, i: int, depth: nat) -> Option<(ExprView, int)>
    decreases depth, 1int, 0int,
{
    let after = kind_in(ts, i + 1);
    let j = next_in(ts, i);
    if depth == 0 {
        None
    } else if after == TokenKind::RightBrace {
        Some((ExprView::Dict { token: ts[i], pairs: Seq::empty() }, next_in(ts, j)))
    } else if after != TokenKind::Identifier && after != TokenKind::String {
        None
    } else {
        pairs_from(ts, ts[i], j, depth, Seq::empty())
    }
}

/// The rest of a dictionary literal from index `i`, after the pairs `done`.
pub open spec fn pairs_from(
    ts: Seq<Token>,
    token: Token,
    i: int,
    depth: nat,
    done: Seq<(ExprView, ExprView)>,
) -> Option<(ExprView, int)>
    decreases depth, 0int, ts.len() - i,
{
    if depth == 0 || !(0 <= i < ts.len()) {
        None
    } else {
        match expression_at(ts, i, 0, (depth - 1) as nat) {
            None => None,
            Some((key, j)) => if kind_in(ts, j) != TokenKind::Colon {
                None
            } else {
                match expression_at(ts, next_in(ts, j), 0, (depth - 1) as nat) {
                    None => None,
                    Some((value, e)) => {
                        let all = done.push((key, value));
                        let comma = kind_in(ts, e) == TokenKind::Comma;
                        let after = if comma {
                            next_in(ts, e)
                        } else {
                            e
                        };
                        if comma && kind_in(ts, after) != TokenKind::RightBrace {
                            if i < after < ts.len() {
                                pairs_from(ts, token, after, depth, all)
                            } else {
                                None
                            }
                        } else if kind_in(ts, after) == TokenKind::RightBrace {
                            Some((ExprView::Dict { token, pairs: all }, next_in(ts, after)))
                        } else {
                            None
                        }
                    },
                }
            },
        }
    }
}

/// A statement that holds no statement: a variable declaration, `return`, an expression
/// statement, `break`, `continue`, an enum, an import or an export.
pub enum SimpleStatement {
    Variable { token: Token, name: String, declared_type: Seq<char>, value: Option<ExprView> },
    Return { token: Token, value: Option<ExprView> },
    Expression(ExprView),
    Break { token: Token },
    Continue { token: Token },
    Enum { token: Token, name: String, variants: Seq<String> },
    Import { token: Token, path: String, imports: Seq<ImportSpecifier> },
    Export { token: Token, specifiers: Seq<ExportSpecifier> },
}

pub open spec fn optional_view(o: Option<Expression>) -> Option<ExprView> {
    match o {
        Some(e) => Some(expr_view(e)),
        None => None,
    }
}

/// Whether the statement `s` is the simple statement `v`.
pub open spec fn is_simple(s: Statement, v: SimpleStatement) -> bool {
    match v {
        SimpleStatement::Variable { token, name, declared_type, value } => s matches Statement::VariableDeclaration { token: t, name: n, declared_type: Some(ty), value: e }
            && t == token && n == name && ty@ == declared_type && optional_view(e) == value,
        SimpleStatement::Return { token, value } => s matches Statement::ReturnStatement { token: t, value: e }
            && t == token && optional_view(e) == value,
        SimpleStatement::Expression(ev) => s matches Statement::Expression(e) && expr_view(e) == ev,
        SimpleStatement::Break { token } => s matches Statement::BreakStatement { token: t } && t
            == token,
        SimpleStatement::Continue { token } => s matches Statement::ContinueStatement { token: t }
            && t == token,
        SimpleStatement::Enum { token, name, variants } => s matches Statement::EnumDeclaration { token: t, name: n, variants: vs }
            && t == token && n == name && vs@ == variants,
        SimpleStatement::Import { token, path, imports } => s matches Statement::ImportDeclaration { token: t, path: p, imports: is }
            && t == token && p == path && is@ == imports,
        SimpleStatement::Export { token, specifiers } => s matches Statement::ExportDeclaration { token: t, specifiers: ss }
            && t == token && ss@ == specifiers,
    }
}

/// The string a string literal token carries.
pub open spec fn string_value(t: TokenType) -> String {
    match t {
        TokenType::String(s) => s,
        _ => arbitrary(),
    }
}

/// Whether the tokens at index `i` start a variable declaration.
pub open spec fn declaration_start(ts: Seq<Token>, i: int) -> bool {
    is_type_keyword(kind_in(ts, i)) || (kind_in(ts, i) == TokenKind::Identifier && kind_in(
        ts,
        i + 1,
    ) == TokenKind::Identifier)
}

/// A `;` at index `j` ends the statement `v`.
pub open spec fn terminated(ts: Seq<Token>, v: SimpleStatement, j: int) -> Option<
    (SimpleStatement, int),
> {
    if kind_in(ts, j) == TokenKind::Semicolon {
        Some((v, next_in(ts, j)))
    } else {
        None
    }
}

/// `<type> <name> (= <expr>)? ;` at index `i`.
pub open spec fn variable_at(ts: Seq<Token>, i: int, depth: nat) -> Option<(SimpleStatement, int)> {
    let token = ts[i];
    let name = name_of(ts[i + 1].token_type);
    let declared_type = type_text(token.token_type);
    if depth == 0 || kind_in(ts, i + 1) != TokenKind::Identifier {
        None
    } else if kind_in(ts, i + 2) == TokenKind::Equals {
        match expression_at(ts, i + 3, 0, (depth - 1) as nat) {
            Some((e, j)) => terminated(
                ts,
                SimpleStatement::Variable { token, name, declared_type, value: Some(e) },
                j,
            ),
            None => None,
        }
    } else {
        terminated(ts, SimpleStatement::Variable { token, name, declared_type, value: None }, i + 2)
    }
}

/// `<type> <name> (= <expr>)?` at index `i`: a declaration up to where its `;` belongs.
pub open spec fn variable_head_at(ts: Seq<Token>, i: int, depth: nat) -> Option<
    (SimpleStatement, int),
> {
    let token = ts[i];
    let name = name_of(ts[i + 1].token_type);
    let declared_type = type_text(token.token_type);
    if depth == 0 || kind_in(ts, i + 1) != TokenKind::Identifier {
        None
    } else if kind_in(ts, i + 2) == TokenKind::Equals {
        match expression_at(ts, i + 3, 0, (depth - 1) as nat) {
            Some((e, j)) => Some(
                (SimpleStatement::Variable { token, name, declared_type, value: Some(e) }, j),
            ),
            None => None,
        }
    } else {
        Some((SimpleStatement::Variable { token, name, declared_type, value: None }, i + 2))
    }
}

/// A program that is one declaration whose `;` is missing at the end of input.
pub open spec fn unterminated_declaration(ts: Seq<Token>, i: int, depth: nat) -> Option<
    SimpleStatement,
> {
    if (depth >= 2) && declaration_start(ts, i) {
        match variable_head_at(ts, i, (depth - 2) as nat) {
            Some((v, j)) => if kind_in(ts, j) == TokenKind::EOF {
                Some(v)
            } else {
                None
            },
            None => None,
        }
    } else {
        None
    }
}

/// The index of an object entry's key, for the entry at `i`: the entry is `<key> : ...`,
/// or it is field-like and its key follows `public` or `private`, `static`, and a type.
pub open spec fn entry_key(ts: Seq<Token>, i: int) -> int {
    if kind_in(ts, i) == TokenKind::Identifier && kind_in(ts, i + 1) == TokenKind::Colon {
        i
    } else {
        let a = if kind_in(ts, i) == TokenKind::PublicKeyword || kind_in(ts, i)
            == TokenKind::PrivateKeyword {
            i + 1
        } else {
            i
        };
        let b = if kind_in(ts, a) == TokenKind::StaticKeyword {
            a + 1
        } else {
            a
        };
        if declaration_start(ts, b) {
            b + 1
        } else {
            b
        }
    }
}

/// The rest of an object's entries from index `i`, after the entries `done`, up to the
/// index after the closing `}`.
#[verifier::opaque]
pub open spec fn entries_from(
    ts: Seq<Token>,
    i: int,
    depth: nat,
    done: Seq<(String, ExprView)>,
) -> Option<(Seq<(String, ExprView)>, int)>
    decreases ts.len() - i,
{
    let key = entry_key(ts, i);
    if depth == 0 || !(0 <= i < ts.len()) {
        None
    } else if kind_in(ts, i) == TokenKind::RightBrace {
        Some((done, next_in(ts, i)))
    } else if kind_in(ts, i) == TokenKind::EOF || kind_in(ts, key) != TokenKind::Identifier || (
    kind_in(ts, key + 1) != TokenKind::Colon && kind_in(ts, key + 1) != TokenKind::Equals) {
        None
    } else {
        match expression_at(ts, key + 2, 0, (depth - 1) as nat) {
            Some((value, j)) => {
                let all = done.push((name_of(ts[key].token_type), value));
                if kind_in(ts, j) == TokenKind::Comma || kind_in(ts, j) == TokenKind::Semicolon {
                    if i < j + 1 < ts.len() {
                        entries_from(ts, j + 1, depth, all)
                    } else {
                        None
                    }
                } else if kind_in(ts, j) == TokenKind::RightBrace {
                    Some((all, next_in(ts, j)))
                } else {
                    None
                }
            },
            None => None,
        }
    }
}

/// One entry of an object, then the rest.
pub proof fn lemma_entries_step(ts: Seq<Token>, i: int, depth: nat, done: Seq<(String, ExprView)>)
    requires
        entries_from(ts, i, depth, done) is Some,
        kind_in(ts, i) != TokenKind::RightBrace,
    ensures
        0 <= i < ts.len(),
        depth > 0,
        kind_in(ts, i) != TokenKind::EOF,
        kind_in(ts, entry_key(ts, i)) == TokenKind::Identifier,
        kind_in(ts, entry_key(ts, i) + 1) == TokenKind::Colon || kind_in(ts, entry_key(ts, i) + 1)
            == TokenKind::Equals,
        match expression_at(ts, entry_key(ts, i) + 2, 0, (depth - 1) as nat) {
            Some((value, j)) => {
                let all = done.push((name_of(ts[entry_key(ts, i)].token_type), value));
                if kind_in(ts, j) == TokenKind::Comma || kind_in(ts, j) == TokenKind::Semicolon {
                    i < j + 1 < ts.len() && entries_from(ts, i, depth, done) == entries_from(
                        ts,
                        j + 1,
                        depth,
                        all,
                    )
                } else {
                    kind_in(ts, j) == TokenKind::RightBrace && entries_from(ts, i, depth, done)
                        == Some((all, next_in(ts, j)))
                }
            },
            None => false,
        },
{
    reveal_with_fuel(entries_from, 1);
}

/// At `}`, an object's entries are complete.
pub proof fn lemma_entries_close(ts: Seq<Token>, i: int, depth: nat, done: Seq<(String, ExprView)>)
    requires
        0 <= i < ts.len(),
        depth > 0,
        kind_in(ts, i) == TokenKind::RightBrace,
    ensures
        entries_from(ts, i, depth, done) == Some((done, next_in(ts, i))),
{
    reveal_with_fuel(entries_from, 1);
}

/// An object's entries end at `}`.
pub proof fn lemma_entries_end(ts: Seq<Token>, i: int, depth: nat, done: Seq<(String, ExprView)>)
    requires
        entries_from(ts, i, depth, done) is Some,
        kind_in(ts, i) == TokenKind::RightBrace || kind_in(ts, i) == TokenKind::EOF,
    ensures
        kind_in(ts, i) == TokenKind::RightBrace,
        entries_from(ts, i, depth, done) == Some((done, next_in(ts, i))),
{
    reveal_with_fuel(entries_from, 1);
}

/// `object <name>? = { <entries> } ;` at index `i`: its name (empty when there is none),
/// its properties, and where it ends.
pub open spec fn object_at(ts: Seq<Token>, i: int, depth: nat) -> Option<
    (Seq<char>, Seq<(String, ExprView)>, int),
> {
    let named = kind_in(ts, i + 1) == TokenKind::Identifier;
    let name = if named {
        name_of(ts[i + 1].token_type)@
    } else {
        Seq::empty()
    };
    let eq = if named {
        i + 2
    } else {
        i + 1
    };
    if depth == 0 || kind_in(ts, eq) != TokenKind::Equals || kind_in(ts, eq + 1)
        != TokenKind::LeftBrace {
        None
    } else {
        match entries_from(ts, eq + 2, depth, Seq::empty()) {
            Some((properties, j)) => if kind_in(ts, j) == TokenKind::Semicolon {
                Some((name, properties, next_in(ts, j)))
            } else {
                None
            },
            None => None,
        }
    }
}

/// The views of an object's properties.
pub open spec fn property_views(s: Seq<(String, Expression)>) -> Seq<(String, ExprView)> {
    Seq::new(s.len(), |k: int| (s[k].0, expr_view(s[k].1)))
}

/// Whether each statement of `ss` is the simple statement at the same place in `vs`.
pub open spec fn simple_list(ss: Seq<Statement>, vs: Seq<SimpleStatement>) -> bool {
    ss.len() == vs.len() && forall|k: int| 0 <= k < ss.len() ==> is_simple(#[trigger] ss[k], vs[k])
}

/// Whether the kind `k` ends the statements of a `case` or `default` arm.
pub open spec fn ends_arm(k: TokenKind) -> bool {
    k == TokenKind::CaseKeyword || k == TokenKind::DefaultKeyword || k == TokenKind::RightBrace
        || k == TokenKind::EOF
}

/// The rest of an arm made of simple statements from index `i`, after the statements
/// `done`: up to the next `case`, `default`, `}` or end of input.
#[verifier::opaque]
pub open spec fn arm_from(ts: Seq<Token>, i: int, depth: nat, done: Seq<SimpleStatement>) -> Option<
    (Seq<SimpleStatement>, int),
>
    decreases ts.len() - i,
{
    if depth == 0 || !(0 <= i < ts.len()) {
        None
    } else if ends_arm(kind_in(ts, i)) {
        Some((done, i))
    } else {
        match statement_at(ts, i, (depth - 1) as nat) {
            Some((s, j)) => if i < j < ts.len() {
                arm_from(ts, j, depth, done.push(s))
            } else {
                None
            },
            None => None,
        }
    }
}

/// The statements of an arm at index `i`, where all of them are simple and parse without
/// error.
pub open spec fn arm_at(ts: Seq<Token>, i: int, depth: nat) -> Option<(Seq<SimpleStatement>, int)> {
    if depth == 0 {
        None
    } else {
        arm_from(ts, i, depth, Seq::empty())
    }
}

/// One statement of an arm, then the rest.
pub proof fn lemma_arm_step(ts: Seq<Token>, i: int, depth: nat, done: Seq<SimpleStatement>)
    requires
        arm_from(ts, i, depth, done) is Some,
        !ends_arm(kind_in(ts, i)),
    ensures
        match statement_at(ts, i, (depth - 1) as nat) {
            Some((s, j)) => i < j < ts.len() && arm_from(ts, i, depth, done) == arm_from(
                ts,
                j,
                depth,
                done.push(s),
            ),
            None => false,
        },
{
    reveal_with_fuel(arm_from, 1);
}

/// An arm ends where a `case`, `default`, `}` or the end of input stands.
pub proof fn lemma_arm_stop(ts: Seq<Token>, i: int, depth: nat, done: Seq<SimpleStatement>)
    requires
        0 <= i < ts.len(),
        depth > 0,
        ends_arm(kind_in(ts, i)),
    ensures
        arm_from(ts, i, depth, done) == Some((done, i)),
{
    reveal_with_fuel(arm_from, 1);
}

/// Whether the arms `ys` of a switch are the cases `cs`: the same values, and arms made
/// of the same simple statements.
pub open spec fn cases_match(ys: Seq<(Expression, Vec<Statement>)>, cs: Seq<(ExprView, Seq<SimpleStatement>)>) -> bool {
    ys.len() == cs.len() && forall|k: int|
        0 <= k < ys.len() ==> expr_view(#[trigger] ys[k].0) == cs[k].0 && simple_list(
            ys[k].1@,
            cs[k].1,
        )
}

/// Whether the `default` arm `d` is `v`.
pub open spec fn default_match(d: Option<Vec<Statement>>, v: Option<Seq<SimpleStatement>>) -> bool {
    match d {
        Some(a) => v matches Some(b) && simple_list(a@, b),
        None => v is None,
    }
}

/// The rest of a switch's arms from index `i`, after the cases and default found so far,
/// up to the index after the closing `}`; the arms are made of simple statements.
#[verifier::opaque]
pub open spec fn switch_from(
    ts: Seq<Token>,
    i: int,
    depth: nat,
    cases: Seq<(ExprView, Seq<SimpleStatement>)>,
    default: Option<Seq<SimpleStatement>>,
) -> Option<(Seq<(ExprView, Seq<SimpleStatement>)>, Option<Seq<SimpleStatement>>, int)>
    decreases ts.len() - i,
{
    let k = kind_in(ts, i);
    let d = (depth - 1) as nat;
    if depth == 0 || !(0 <= i < ts.len()) || k == TokenKind::EOF {
        None
    } else if k == TokenKind::RightBrace {
        Some((cases, default, next_in(ts, i)))
    } else if k == TokenKind::CaseKeyword {
        match expression_at(ts, i + 1, 0, d) {
            Some((value, j)) => if kind_in(ts, j) != TokenKind::Colon {
                None
            } else {
                match arm_at(ts, j + 1, d) {
                    Some((body, e)) => if i < e < ts.len() {
                        switch_from(ts, e, depth, cases.push((value, body)), default)
                    } else {
                        None
                    },
                    None => None,
                }
            },
            None => None,
        }
    } else if k == TokenKind::DefaultKeyword {
        if kind_in(ts, i + 1) != TokenKind::Colon {
            None
        } else {
            match arm_at(ts, i + 2, d) {
                Some((body, e)) => if i < e < ts.len() {
                    switch_from(ts, e, depth, cases, Some(body))
                } else {
                    None
                },
                None => None,
            }
        }
    } else {
        None
    }
}

/// `( <expr> )` at index `i`.
pub open spec fn condition_at(ts: Seq<Token>, i: int, depth: nat) -> Option<(ExprView, int)> {
    if depth == 0 || kind_in(ts, i) != TokenKind::LeftParen {
        None
    } else {
        match expression_at(ts, i + 1, 0, (depth - 1) as nat) {
            Some((e, j)) => if kind_in(ts, j) == TokenKind::RightParen {
                Some((e, j + 1))
            } else {
                None
            },
            None => None,
        }
    }
}

/// `switch ( <expr> ) { <arms> }` at index `i`, where the arms are made of simple
/// statements and all parses without error: its subject, cases, default and end.
pub open spec fn switch_at(ts: Seq<Token>, i: int, depth: nat) -> Option<
    (ExprView, Seq<(ExprView, Seq<SimpleStatement>)>, Option<Seq<SimpleStatement>>, int),
> {
    if depth < 2 || kind_in(ts, i + 1) != TokenKind::LeftParen {
        None
    } else {
        match expression_at(ts, i + 2, 0, (depth - 2) as nat) {
            Some((subject, j)) => if kind_in(ts, j) != TokenKind::RightParen || kind_in(ts, j + 1)
                != TokenKind::LeftBrace {
                None
            } else {
                match switch_from(ts, j + 2, depth, Seq::empty(), None) {
                    Some((cases, default, e)) => Some((subject, cases, default, e)),
                    None => None,
                }
            },
            None => None,
        }
    }
}

/// One `case` of a switch, then the rest.
pub proof fn lemma_case_step(
    ts: Seq<Token>,
    i: int,
    depth: nat,
    cases: Seq<(ExprView, Seq<SimpleStatement>)>,
    default: Option<Seq<SimpleStatement>>,
)
    requires
        switch_from(ts, i, depth, cases, default) is Some,
        kind_in(ts, i) == TokenKind::CaseKeyword,
    ensures
        0 <= i < ts.len(),
        depth > 0,
        match expression_at(ts, i + 1, 0, (depth - 1) as nat) {
            Some((value, j)) => kind_in(ts, j) == TokenKind::Colon && match arm_at(
                ts,
                j + 1,
                (depth - 1) as nat,
            ) {
                Some((body, e)) => i < e < ts.len() && switch_from(ts, i, depth, cases, default)
                    == switch_from(ts, e, depth, cases.push((value, body)), default),
                None => false,
            },
            None => false,
        },
{
    reveal_with_fuel(switch_from, 1);
}

/// The `default` arm of a switch, then the rest.
pub proof fn lemma_default_step(
    ts: Seq<Token>,
    i: int,
    depth: nat,
    cases: Seq<(ExprView, Seq<SimpleStatement>)>,
    default: Option<Seq<SimpleStatement>>,
)
    requires
        switch_from(ts, i, depth, cases, default) is Some,
        kind_in(ts, i) == TokenKind::DefaultKeyword,
    ensures
        0 <= i < ts.len(),
        depth > 0,
        kind_in(ts, i + 1) == TokenKind::Colon,
        match arm_at(ts, i + 2, (depth - 1) as nat) {
            Some((body, e)) => i < e < ts.len() && switch_from(ts, i, depth, cases, default)
                == switch_from(ts, e, depth, cases, Some(body)),
            None => false,
        },
{
    reveal_with_fuel(switch_from, 1);
}

/// A switch's arms end at `}`, and only `case` and `default` may start one.
pub proof fn lemma_switch_end(
    ts: Seq<Token>,
    i: int,
    depth: nat,
    cases: Seq<(ExprView, Seq<SimpleStatement>)>,
    default: Option<Seq<SimpleStatement>>,
)
    requires
        switch_from(ts, i, depth, cases, default) is Some,
    ensures
        kind_in(ts, i) == TokenKind::RightBrace || kind_in(ts, i) == TokenKind::CaseKeyword
            || kind_in(ts, i) == TokenKind::DefaultKeyword,
        kind_in(ts, i) == TokenKind::RightBrace ==> switch_from(ts, i, depth, cases, default)
            == Some((cases, default, next_in(ts, i))),
{
    reveal_with_fuel(switch_from, 1);
}

/// The rest of a block made of simple statements from index `i`, after the statements
/// `done`, up to the index after the closing `}`.
#[verifier::opaque]
pub open spec fn block_from(ts: Seq<Token>, i: int, depth: nat, done: Seq<SimpleStatement>) -> Option<
    (Seq<SimpleStatement>, int),
>
    decreases ts.len() - i,
{
    if depth == 0 || !(0 <= i < ts.len()) || kind_in(ts, i) == TokenKind::EOF {
        None
    } else if kind_in(ts, i) == TokenKind::RightBrace {
        Some((done, next_in(ts, i)))
    } else {
        match statement_at(ts, i, (depth - 1) as nat) {
            Some((s, j)) => if i < j < ts.len() {
                block_from(ts, j, depth, done.push(s))
            } else {
                None
            },
            None => None,
        }
    }
}

/// `{ <statements> }` at index `i`, where all the statements are simple and parse without
/// error.
pub open spec fn block_at(ts: Seq<Token>, i: int, depth: nat) -> Option<(Seq<SimpleStatement>, int)> {
    if depth == 0 || kind_in(ts, i) != TokenKind::LeftBrace {
        None
    } else {
        block_from(ts, next_in(ts, i), depth, Seq::empty())
    }
}

/// One statement of a block, then the rest.
pub proof fn lemma_block_step(ts: Seq<Token>, i: int, depth: nat, done: Seq<SimpleStatement>)
    requires
        block_from(ts, i, depth, done) is Some,
        kind_in(ts, i) != TokenKind::RightBrace,
    ensures
        kind_in(ts, i) != TokenKind::EOF,
        match statement_at(ts, i, (depth - 1) as nat) {
            Some((s, j)) => i < j < ts.len() && block_from(ts, i, depth, done) == block_from(
                ts,
                j,
                depth,
                done.push(s),
            ),
            None => false,
        },
{
    reveal_with_fuel(block_from, 1);
}

/// A block ends at `}`.
pub proof fn lemma_block_close(ts: Seq<Token>, i: int, depth: nat, done: Seq<SimpleStatement>)
    requires
        0 <= i < ts.len(),
        depth > 0,
        kind_in(ts, i) == TokenKind::RightBrace,
    ensures
        block_from(ts, i, depth, done) == Some((done, next_in(ts, i))),
{
    reveal_with_fuel(block_from, 1);
}

/// A block is not cut off by the end of input.
pub proof fn lemma_block_eof(ts: Seq<Token>, i: int, depth: nat, done: Seq<SimpleStatement>)
    requires
        kind_in(ts, i) == TokenKind::EOF,
    ensures
        block_from(ts, i, depth, done) is None,
{
    reveal_with_fuel(block_from, 1);
}

/// Whether the token at index `i` is a type name.
pub open spec fn type_at(ts: Seq<Token>, i: int) -> bool {
    is_type_keyword(kind_in(ts, i)) || kind_in(ts, i) == TokenKind::Identifier
}

/// One parameter at index `i`, `<type> <name>` or `<name> : <type>`, as the text of its
/// name and type.
pub open spec fn parameter_at(ts: Seq<Token>, i: int) -> Option<((Seq<char>, Seq<char>), int)> {
    if declaration_start(ts, i) {
        if kind_in(ts, i + 1) == TokenKind::Identifier {
            Some(((name_of(ts[i + 1].token_type)@, type_text(ts[i].token_type)), i + 2))
        } else {
            None
        }
    } else if kind_in(ts, i) == TokenKind::Identifier && kind_in(ts, i + 1) == TokenKind::Colon
        && type_at(ts, i + 2) {
        Some(((name_of(ts[i].token_type)@, type_text(ts[i + 2].token_type)), i + 3))
    } else {
        None
    }
}

/// The rest of a parameter list from index `i`, after the parameters `done`.
pub open spec fn parameters_from(
    ts: Seq<Token>,
    i: int,
    done: Seq<(Seq<char>, Seq<char>)>,
) -> Option<(Seq<(Seq<char>, Seq<char>)>, int)>
    decreases ts.len() - i,
{
    if !(0 <= i < ts.len()) {
        None
    } else {
        match parameter_at(ts, i) {
            Some((p, j)) => {
                let all = done.push(p);
                if kind_in(ts, j) == TokenKind::Comma {
                    if i < j + 1 < ts.len() {
                        parameters_from(ts, j + 1, all)
                    } else {
                        None
                    }
                } else if kind_in(ts, j) == TokenKind::RightParen {
                    Some((all, next_in(ts, j)))
                } else {
                    None
                }
            },
            None => None,
        }
    }
}

/// `( <params> )` at index `i`.
pub open spec fn parameters_at(ts: Seq<Token>, i: int) -> Option<
    (Seq<(Seq<char>, Seq<char>)>, int),
> {
    if kind_in(ts, i) != TokenKind::LeftParen {
        None
    } else if kind_in(ts, i + 1) == TokenKind::RightParen {
        Some((Seq::empty(), next_in(ts, i + 1)))
    } else {
        parameters_from(ts, i + 1, Seq::empty())
    }
}

/// The text of each (name, type) pair.
pub open spec fn parameter_views(ps: Seq<(String, String)>) -> Seq<(Seq<char>, Seq<char>)> {
    Seq::new(ps.len(), |k: int| (ps[k].0@, ps[k].1@))
}

/// The text of an optional type name.
pub open spec fn optional_text(o: Option<String>) -> Option<Seq<char>> {
    match o {
        Some(s) => Some(s@),
        None => None,
    }
}

/// An optional `=> <type>` at index `i`.
pub open spec fn return_type_at(ts: Seq<Token>, i: int) -> Option<(Option<Seq<char>>, int)> {
    if kind_in(ts, i) != TokenKind::EqualsGreaterThan {
        Some((None, i))
    } else if type_at(ts, i + 1) {
        Some((Some(type_text(ts[i + 1].token_type)), i + 2))
    } else {
        None
    }
}

/// A method body at index `i`: a block of simple statements with an optional `;` after
/// it, or a lone `;`.
pub open spec fn method_body_at(ts: Seq<Token>, i: int, depth: nat) -> Option<
    (Seq<SimpleStatement>, int),
> {
    if depth == 0 {
        None
    } else if kind_in(ts, i) == TokenKind::Semicolon {
        Some((Seq::empty(), i + 1))
    } else {
        match block_at(ts, i, (depth - 1) as nat) {
            Some((body, j)) => if kind_in(ts, j) == TokenKind::Semicolon {
                Some((body, next_in(ts, j)))
            } else {
                Some((body, j))
            },
            None => None,
        }
    }
}

/// The index of the `)` that closes the parentheses open before index `j`, where `open`
/// of them are still open.
pub open spec fn paren_close(ts: Seq<Token>, j: int, open: nat) -> Option<int>
    decreases ts.len() - j,
{
    if 0 <= j < ts.len() {
        let k = kind_in(ts, j);
        if k == TokenKind::LeftParen {
            paren_close(ts, j + 1, open + 1)
        } else if k == TokenKind::RightParen {
            if open <= 1 {
                Some(j)
            } else {
                paren_close(ts, j + 1, (open - 1) as nat)
            }
        } else {
            paren_close(ts, j + 1, open)
        }
    } else {
        None
    }
}

/// Whether index `j` starts an arrow function: a parenthesized list followed by `=>`.
pub open spec fn arrow_at(ts: Seq<Token>, j: int) -> bool {
    kind_in(ts, j) == TokenKind::LeftParen && match paren_close(ts, j + 1, 1) {
        Some(c) => kind_in(ts, c + 1) == TokenKind::EqualsGreaterThan,
        None => false,
    }
}

/// A class member as plain values; a method's body is made of simple statements.
pub enum MemberView {
    Field {
        token: Token,
        name: String,
        declared_type: Option<Seq<char>>,
        value: Option<ExprView>,
        visibility: Visibility,
        is_static: bool,
    },
    Method {
        token: Token,
        name: String,
        parameters: Seq<(Seq<char>, Seq<char>)>,
        body: Seq<SimpleStatement>,
        return_type: Option<Seq<char>>,
        visibility: Visibility,
        is_static: bool,
    },
}

/// Whether the member `m` is `v`.
pub open spec fn is_member(m: ClassMember, v: MemberView) -> bool {
    match v {
        MemberView::Field { token, name, declared_type, value, visibility, is_static } => {
            &&& m is Field
            &&& m->Field_token == token
            &&& m->Field_name == name
            &&& optional_text(m->Field_declared_type) == declared_type
            &&& optional_view(m->Field_value) == value
            &&& m->Field_visibility == visibility
            &&& m->Field_is_static == is_static
        },
        MemberView::Method {
            token,
            name,
            parameters,
            body,
            return_type,
            visibility,
            is_static,
        } => {
            &&& m is Method
            &&& m->Method_token == token
            &&& m->Method_name == name
            &&& parameter_views(m->Method_parameters@) == parameters
            &&& simple_list(m->Method_body@, body)
            &&& optional_text(m->Method_return_type) == return_type
            &&& m->Method_visibility == visibility
            &&& m->Method_is_static == is_static
        },
    }
}

/// A class member at index `i` that parses without error, with the visibility and
/// staticness that apply when it states none, and where it ends.
pub open spec fn member_at(
    ts: Seq<Token>,
    i: int,
    default_visibility: Visibility,
    default_static: bool,
    depth: nat,
) -> Option<(MemberView, int)> {
    let d = (depth - 1) as nat;
    let has_visibility = kind_in(ts, i) == TokenKind::PublicKeyword || kind_in(ts, i)
        == TokenKind::PrivateKeyword;
    let visibility = if kind_in(ts, i) == TokenKind::PublicKeyword {
        Visibility::Public
    } else if kind_in(ts, i) == TokenKind::PrivateKeyword {
        Visibility::Private
    } else {
        default_visibility
    };
    let a = if has_visibility {
        i + 1
    } else {
        i
    };
    let is_static = kind_in(ts, a) == TokenKind::StaticKeyword || default_static;
    let b = if kind_in(ts, a) == TokenKind::StaticKeyword {
        a + 1
    } else {
        a
    };
    let token = ts[b];
    if depth == 0 {
        None
    } else if kind_in(ts, b) == TokenKind::FunctionKeyword {
        if kind_in(ts, b + 1) != TokenKind::Identifier {
            None
        } else {
            match parameters_at(ts, b + 2) {
                Some((parameters, j)) => match return_type_at(ts, j) {
                    Some((return_type, j2)) => match method_body_at(ts, j2, d) {
                        Some((body, j3)) => Some(
                            (
                                MemberView::Method {
                                    token,
                                    name: name_of(ts[b + 1].token_type),
                                    parameters,
                                    body,
                                    return_type,
                                    visibility,
                                    is_static,
                                },
                                j3,
                            ),
                        ),
                        None => None,
                    },
                    None => None,
                },
                None => None,
            }
        }
    } else {
        let typed = declaration_start(ts, b);
        let declared_type = if typed {
            Some(type_text(ts[b].token_type))
        } else {
            None
        };
        let n = if typed {
            b + 1
        } else {
            b
        };
        let name = name_of(ts[n].token_type);
        if kind_in(ts, n) != TokenKind::Identifier {
            None
        } else if kind_in(ts, n + 1) == TokenKind::Equals && arrow_at(ts, n + 2) {
            match parameters_at(ts, n + 2) {
                Some((parameters, j)) => if kind_in(ts, j) != TokenKind::EqualsGreaterThan {
                    None
                } else {
                    match method_body_at(ts, j + 1, d) {
                        Some((body, j2)) => Some(
                            (
                                MemberView::Method {
                                    token,
                                    name,
                                    parameters,
                                    body,
                                    return_type: declared_type,
                                    visibility,
                                    is_static,
                                },
                                j2,
                            ),
                        ),
                        None => None,
                    }
                },
                None => None,
            }
        } else if kind_in(ts, n + 1) == TokenKind::Equals {
            match expression_at(ts, n + 2, 0, d) {
                Some((value, j)) => if kind_in(ts, j) == TokenKind::Semicolon {
                    Some(
                        (
                            MemberView::Field {
                                token,
                                name,
                                declared_type,
                                value: Some(value),
                                visibility,
                                is_static,
                            },
                            j + 1,
                        ),
                    )
                } else {
                    None
                },
                None => None,
            }
        } else if kind_in(ts, n + 1) == TokenKind::Semicolon {
            Some(
                (
                    MemberView::Field {
                        token,
                        name,
                        declared_type,
                        value: None,
                        visibility,
                        is_static,
                    },
                    n + 2,
                ),
            )
        } else {
            None
        }
    }
}

/// Whether the tokens at index `i` are a header `public:`, `private:` or `static:`.
pub open spec fn class_header(ts: Seq<Token>, i: int) -> bool {
    (kind_in(ts, i) == TokenKind::PublicKeyword || kind_in(ts, i) == TokenKind::PrivateKeyword
        || kind_in(ts, i) == TokenKind::StaticKeyword) && kind_in(ts, i + 1) == TokenKind::Colon
}

/// The visibility that members get after the header at index `i`.
pub open spec fn header_visibility(ts: Seq<Token>, i: int, visibility: Visibility) -> Visibility {
    if kind_in(ts, i) == TokenKind::PublicKeyword {
        Visibility::Public
    } else if kind_in(ts, i) == TokenKind::PrivateKeyword {
        Visibility::Private
    } else {
        visibility
    }
}

/// Whether members are static after the header at index `i`.
pub open spec fn header_static(ts: Seq<Token>, i: int) -> bool {
    kind_in(ts, i) == TokenKind::StaticKeyword
}

/// The rest of a class body from index `i`, after the members `done`, up to the index after
/// its `}`. A header changes what the members after it default to, and adds no member.
#[verifier::opaque]
pub open spec fn class_from(
    ts: Seq<Token>,
    i: int,
    depth: nat,
    visibility: Visibility,
    is_static: bool,
    done: Seq<MemberView>,
) -> Option<(Seq<MemberView>, int)>
    decreases ts.len() - i,
{
    if depth == 0 || !(0 <= i < ts.len()) || kind_in(ts, i) == TokenKind::EOF {
        None
    } else if kind_in(ts, i) == TokenKind::RightBrace {
        Some((done, next_in(ts, i)))
    } else if class_header(ts, i) {
        if i + 2 < ts.len() {
            class_from(
                ts,
                i + 2,
                depth,
                header_visibility(ts, i, visibility),
                header_static(ts, i),
                done,
            )
        } else {
            None
        }
    } else {
        match member_at(ts, i, visibility, is_static, (depth - 1) as nat) {
            Some((m, j)) => if i < j < ts.len() {
                class_from(ts, j, depth, visibility, is_static, done.push(m))
            } else {
                None
            },
            None => None,
        }
    }
}

/// A class body after a header, or after one member.
pub proof fn lemma_class_step(
    ts: Seq<Token>,
    i: int,
    depth: nat,
    visibility: Visibility,
    is_static: bool,
    done: Seq<MemberView>,
)
    requires
        class_from(ts, i, depth, visibility, is_static, done) is Some,
        kind_in(ts, i) != TokenKind::RightBrace,
    ensures
        0 <= i < ts.len(),
        depth > 0,
        kind_in(ts, i) != TokenKind::EOF,
        class_header(ts, i) ==> i + 2 < ts.len() && class_from(
            ts,
            i,
            depth,
            visibility,
            is_static,
            done,
        ) == class_from(
            ts,
            i + 2,
            depth,
            header_visibility(ts, i, visibility),
            header_static(ts, i),
            done,
        ),
        !class_header(ts, i) ==> match member_at(ts, i, visibility, is_static, (depth - 1) as nat) {
            Some((m, j)) => i < j < ts.len() && class_from(ts, i, depth, visibility, is_static, done)
                == class_from(ts, j, depth, visibility, is_static, done.push(m)),
            None => false,
        },
{
    reveal_with_fuel(class_from, 1);
}

/// A class body ends at `}`, and not at the end of input.
pub proof fn lemma_class_close(
    ts: Seq<Token>,
    i: int,
    depth: nat,
    visibility: Visibility,
    is_static: bool,
    done: Seq<MemberView>,
)
    requires
        0 <= i < ts.len(),
        depth > 0,
        kind_in(ts, i) == TokenKind::RightBrace || kind_in(ts, i) == TokenKind::EOF,
    ensures
        kind_in(ts, i) == TokenKind::RightBrace ==> class_from(ts, i, depth, visibility, is_static, done)
            == Some((done, next_in(ts, i))),
        kind_in(ts, i) == TokenKind::EOF ==> class_from(ts, i, depth, visibility, is_static, done)
            is None,
{
    reveal_with_fuel(class_from, 1);
}

/// The rest of an `implements` list from index `i`, after the names `done`.
pub open spec fn idents_from(ts: Seq<Token>, i: int, done: Seq<String>) -> Option<(Seq<String>, int)>
    decreases ts.len() - i,
{
    if !(0 <= i < ts.len()) || kind_in(ts, i) != TokenKind::Identifier {
        None
    } else {
        let all = done.push(name_of(ts[i].token_type));
        if kind_in(ts, i + 1) == TokenKind::Comma {
            if i + 2 < ts.len() {
                idents_from(ts, i + 2, all)
            } else {
                None
            }
        } else {
            Some((all, i + 1))
        }
    }
}

/// Whether each member of `ms` is the one at the same place in `vs`.
pub open spec fn members_match(ms: Seq<ClassMember>, vs: Seq<MemberView>) -> bool {
    ms.len() == vs.len() && forall|k: int| 0 <= k < ms.len() ==> is_member(#[trigger] ms[k], vs[k])
}

/// `class <name> (extends <name>)? (implements <names>)? { <members> }` at index `i`, where
/// it parses without error: its name, superclass, interfaces, members, and end.
pub open spec fn class_at(ts: Seq<Token>, i: int, depth: nat) -> Option<
    (String, Option<String>, Seq<String>, Seq<MemberView>, int),
> {
    let extends = kind_in(ts, i + 2) == TokenKind::ExtendsKeyword;
    let superclass = if extends {
        Some(name_of(ts[i + 3].token_type))
    } else {
        None
    };
    let j = if extends {
        i + 4
    } else {
        i + 2
    };
    let interfaces: Option<(Seq<String>, int)> = if kind_in(ts, j)
        == TokenKind::ImplementsKeyword {
        idents_from(ts, j + 1, Seq::empty())
    } else {
        Some((Seq::empty(), j))
    };
    if depth == 0 || kind_in(ts, i + 1) != TokenKind::Identifier || (extends && kind_in(ts, i + 3)
        != TokenKind::Identifier) {
        None
    } else {
        match interfaces {
            Some((names, j2)) => if kind_in(ts, j2) != TokenKind::LeftBrace {
                None
            } else {
                match class_from(ts, j2 + 1, depth, Visibility::Public, false, Seq::empty()) {
                    Some((members, e)) => Some(
                        (name_of(ts[i + 1].token_type), superclass, names, members, e),
                    ),
                    None => None,
                }
            },
            None => None,
        }
    }
}

/// Whether `s` is a block of the simple statements `b`.
pub open spec fn block_of(s: Statement, b: Seq<SimpleStatement>) -> bool {
    s matches Statement::BlockStatement(bb) && simple_list(bb@, b)
}

/// `function <name> ( <params> ) (=> <type>)? { <statements> }` at index `i`, with a body of
/// simple statements: name, parameters, return type, body and end.
pub open spec fn function_at(ts: Seq<Token>, i: int, depth: nat) -> Option<
    (String, Seq<(Seq<char>, Seq<char>)>, Option<Seq<char>>, Seq<SimpleStatement>, int),
> {
    if depth == 0 || kind_in(ts, i + 1) != TokenKind::Identifier {
        None
    } else {
        match parameters_at(ts, i + 2) {
            Some((parameters, j)) => match return_type_at(ts, j) {
                Some((return_type, j2)) => match block_at(ts, j2, (depth - 1) as nat) {
                    Some((body, e)) => Some(
                        (name_of(ts[i + 1].token_type), parameters, return_type, body, e),
                    ),
                    None => None,
                },
                None => None,
            },
            None => None,
        }
    }
}

/// `while ( <expr> ) { <statements> }` at index `i`: condition, body and end.
pub open spec fn while_at(ts: Seq<Token>, i: int, depth: nat) -> Option<
    (ExprView, Seq<SimpleStatement>, int),
> {
    if depth == 0 {
        None
    } else {
        match condition_at(ts, i + 1, (depth - 1) as nat) {
            Some((condition, j)) => match block_at(ts, j, (depth - 1) as nat) {
                Some((body, e)) => Some((condition, body, e)),
                None => None,
            },
            None => None,
        }
    }
}

/// `do { <statements> } while ( <expr> ) ;` at index `i`: body, condition and end.
pub open spec fn do_at(ts: Seq<Token>, i: int, depth: nat) -> Option<
    (Seq<SimpleStatement>, ExprView, int),
> {
    if depth == 0 {
        None
    } else {
        match block_at(ts, i + 1, (depth - 1) as nat) {
            Some((body, j)) => if kind_in(ts, j) != TokenKind::WhileKeyword {
                None
            } else {
                match condition_at(ts, j + 1, (depth - 1) as nat) {
                    Some((condition, j2)) => if kind_in(ts, j2) == TokenKind::Semicolon {
                        Some((body, condition, next_in(ts, j2)))
                    } else {
                        None
                    },
                    None => None,
                }
            },
            None => None,
        }
    }
}

/// `for ( <name> of <expr> ) { <statements> }` at index `i`: variable, iterated
/// expression, body and end.
pub open spec fn for_of_at(ts: Seq<Token>, i: int, depth: nat) -> Option<
    (String, ExprView, Seq<SimpleStatement>, int),
> {
    if depth == 0 || kind_in(ts, i + 1) != TokenKind::LeftParen || kind_in(ts, i + 2)
        != TokenKind::Identifier || kind_in(ts, i + 3) != TokenKind::OfKeyword {
        None
    } else {
        match expression_at(ts, i + 4, 0, (depth - 1) as nat) {
            Some((iterator, j)) => if kind_in(ts, j) != TokenKind::RightParen {
                None
            } else {
                match block_at(ts, j + 1, (depth - 1) as nat) {
                    Some((body, e)) => Some((name_of(ts[i + 2].token_type), iterator, body, e)),
                    None => None,
                }
            },
            None => None,
        }
    }
}

/// What follows the first branch of an `if`: nothing, an `else` block, or an `else if`
/// with its own branches.
pub enum ElseView {
    Nothing,
    Block(Seq<SimpleStatement>),
    If { token: Token, condition: ExprView, then_body: Seq<SimpleStatement>, rest: Box<ElseView> },
}

/// Whether the else branch `e` of an `if` is `v`.
pub open spec fn else_of(e: Option<Box<Statement>>, v: ElseView) -> bool
    decreases v,
{
    match v {
        ElseView::Nothing => e is None,
        ElseView::Block(b) => e matches Some(bx) && block_of(*bx, b),
        ElseView::If { token, condition, then_body, rest } => e matches Some(bx) && (*bx matches Statement::IfStatement { token: t, condition: x, then_branch: tbx, else_branch: ebx }
            && t == token && expr_view(x) == condition && block_of(*tbx, then_body) && else_of(
            ebx,
            *rest,
        )),
    }
}

/// `if ( <expr> ) { <statements> } (else (if ... | { <statements> }))?` at index `i`:
/// condition, first branch, what follows it, and end; an `else if` recurses.
pub open spec fn if_at(ts: Seq<Token>, i: int, depth: nat) -> Option<
    (ExprView, Seq<SimpleStatement>, ElseView, int),
>
    decreases depth,
{
    let d = (depth - 1) as nat;
    if depth == 0 {
        None
    } else {
        match condition_at(ts, i + 1, d) {
            Some((condition, j)) => match block_at(ts, j, d) {
                Some((then_body, j2)) => if kind_in(ts, j2) != TokenKind::ElseKeyword {
                    Some((condition, then_body, ElseView::Nothing, j2))
                } else if kind_in(ts, j2 + 1) == TokenKind::IfKeyword {
                    match if_at(ts, j2 + 1, d) {
                        Some((c2, tb2, rest, e)) => Some(
                            (
                                condition,
                                then_body,
                                ElseView::If {
                                    token: ts[j2 + 1],
                                    condition: c2,
                                    then_body: tb2,
                                    rest: Box::new(rest),
                                },
                                e,
                            ),
                        ),
                        None => None,
                    }
                } else {
                    match block_at(ts, j2 + 1, d) {
                        Some((else_body, e)) => Some(
                            (condition, then_body, ElseView::Block(else_body), e),
                        ),
                        None => None,
                    }
                },
                None => None,
            },
            None => None,
        }
    }
}

/// Whether the interface member `m` is the method `v`.
pub open spec fn is_signature(m: InterfaceMember, v: MemberView) -> bool {
    &&& v is Method
    &&& m->Method_token == v->Method_token
    &&& m->Method_name == v->Method_name
    &&& parameter_views(m->Method_parameters@) == v->Method_parameters
    &&& optional_text(m->Method_return_type) == v->Method_return_type
}

/// Whether each member of `ms` is the method at the same place in `vs`.
pub open spec fn signatures_match(ms: Seq<InterfaceMember>, vs: Seq<MemberView>) -> bool {
    ms.len() == vs.len() && forall|k: int| 0 <= k < ms.len() ==> is_signature(#[trigger] ms[k], vs[k])
}

/// The rest of an interface body from index `i`, after the methods `done`, up to the index
/// after its `}`; every member is a method.
#[verifier::opaque]
pub open spec fn interface_from(ts: Seq<Token>, i: int, depth: nat, done: Seq<MemberView>) -> Option<
    (Seq<MemberView>, int),
>
    decreases ts.len() - i,
{
    if depth == 0 || !(0 <= i < ts.len()) || kind_in(ts, i) == TokenKind::EOF {
        None
    } else if kind_in(ts, i) == TokenKind::RightBrace {
        Some((done, next_in(ts, i)))
    } else {
        match member_at(ts, i, Visibility::Public, false, (depth - 1) as nat) {
            Some((m, j)) => if m is Method && i < j < ts.len() {
                interface_from(ts, j, depth, done.push(m))
            } else {
                None
            },
            None => None,
        }
    }
}

/// One method of an interface, then the rest.
pub proof fn lemma_interface_step(ts: Seq<Token>, i: int, depth: nat, done: Seq<MemberView>)
    requires
        interface_from(ts, i, depth, done) is Some,
        kind_in(ts, i) != TokenKind::RightBrace,
    ensures
        depth > 0,
        kind_in(ts, i) != TokenKind::EOF,
        match member_at(ts, i, Visibility::Public, false, (depth - 1) as nat) {
            Some((m, j)) => m is Method && i < j < ts.len() && interface_from(ts, i, depth, done)
                == interface_from(ts, j, depth, done.push(m)),
            None => false,
        },
{
    reveal_with_fuel(interface_from, 1);
}

/// An interface body ends at `}`, and not at the end of input.
pub proof fn lemma_interface_close(ts: Seq<Token>, i: int, depth: nat, done: Seq<MemberView>)
    requires
        0 <= i < ts.len(),
        depth > 0,
        kind_in(ts, i) == TokenKind::RightBrace || kind_in(ts, i) == TokenKind::EOF,
    ensures
        kind_in(ts, i) == TokenKind::RightBrace ==> interface_from(ts, i, depth, done) == Some(
            (done, next_in(ts, i)),
        ),
        kind_in(ts, i) == TokenKind::EOF ==> interface_from(ts, i, depth, done) is None,
{
    reveal_with_fuel(interface_from, 1);
}

/// `interface <name> { <methods> }` at index `i`: name, methods and end.
pub open spec fn interface_at(ts: Seq<Token>, i: int, depth: nat) -> Option<
    (String, Seq<MemberView>, int),
> {
    if depth == 0 || kind_in(ts, i + 1) != TokenKind::Identifier || kind_in(ts, i + 2)
        != TokenKind::LeftBrace {
        None
    } else {
        match interface_from(ts, i + 3, depth, Seq::empty()) {
            Some((methods, e)) => Some((name_of(ts[i + 1].token_type), methods, e)),
            None => None,
        }
    }
}

/// The initializer of a `for` loop at index `i`, with the `;` that ends it.
pub open spec fn initializer_at(ts: Seq<Token>, i: int, depth: nat) -> Option<
    (Option<SimpleStatement>, int),
> {
    if kind_in(ts, i) == TokenKind::Semicolon {
        Some((None, i + 1))
    } else if declaration_start(ts, i) {
        match variable_at(ts, i, depth) {
            Some((v, j)) => Some((Some(v), j)),
            None => None,
        }
    } else {
        match expression_at(ts, i, 0, depth) {
            Some((e, j)) => if kind_in(ts, j) == TokenKind::Semicolon {
                Some((Some(SimpleStatement::Expression(e)), j + 1))
            } else {
                None
            },
            None => None,
        }
    }
}

/// An optional expression at index `i`, absent where a token of kind `end` stands.
pub open spec fn optional_expression_at(ts: Seq<Token>, i: int, end: TokenKind, depth: nat) -> Option<
    (Option<ExprView>, int),
> {
    if kind_in(ts, i) == end {
        Some((None, i))
    } else {
        match expression_at(ts, i, 0, depth) {
            Some((e, j)) => Some((Some(e), j)),
            None => None,
        }
    }
}

/// `for ( <init>? ; <cond>? ; <incr>? ) { <statements> }` at index `i`: the three clauses,
/// the body and the end.
pub open spec fn for_at(ts: Seq<Token>, i: int, depth: nat) -> Option<
    (Option<SimpleStatement>, Option<ExprView>, Option<ExprView>, Seq<SimpleStatement>, int),
> {
    let d = (depth - 1) as nat;
    if depth == 0 || kind_in(ts, i + 1) != TokenKind::LeftParen {
        None
    } else {
        match initializer_at(ts, i + 2, d) {
            Some((init, j)) => match optional_expression_at(ts, j, TokenKind::Semicolon, d) {
                Some((cond, j2)) => if kind_in(ts, j2) != TokenKind::Semicolon {
                    None
                } else {
                    match optional_expression_at(ts, j2 + 1, TokenKind::RightParen, d) {
                        Some((incr, j3)) => if kind_in(ts, j3) != TokenKind::RightParen {
                            None
                        } else {
                            match block_at(ts, j3 + 1, d) {
                                Some((body, e)) => Some((init, cond, incr, body, e)),
                                None => None,
                            }
                        },
                        None => None,
                    }
                },
                None => None,
            },
            None => None,
        }
    }
}

/// Whether the optional expression `o` has the view `v`.
pub open spec fn optional_is(o: Option<Expression>, v: Option<ExprView>) -> bool {
    optional_view(o) == v
}

/// An `if` at index `i` whose plain `else` is not followed by a block.
pub open spec fn if_rejected(ts: Seq<Token>, i: int, depth: nat) -> bool {
    let d = (depth - 1) as nat;
    depth > 0 && match condition_at(ts, i + 1, d) {
        Some((c, j)) => match block_at(ts, j, d) {
            Some((b, j2)) => kind_in(ts, j2) == TokenKind::ElseKeyword && kind_in(ts, j2 + 1)
                != TokenKind::IfKeyword && kind_in(ts, j2 + 1) != TokenKind::LeftBrace,
            None => false,
        },
        None => false,
    }
}

/// A switch at index `i` whose first `case` has a value that is no expression.
pub open spec fn switch_rejected(ts: Seq<Token>, i: int, depth: nat) -> bool {
    depth >= 2 && kind_in(ts, i + 1) == TokenKind::LeftParen && match expression_at(
        ts,
        i + 2,
        0,
        (depth - 2) as nat,
    ) {
        Some((c, j)) => kind_in(ts, j) == TokenKind::RightParen && kind_in(ts, j + 1)
            == TokenKind::LeftBrace && kind_in(ts, j + 2) == TokenKind::CaseKeyword
            && expression_at(ts, j + 3, 0, (depth - 1) as nat) is None,
        None => false,
    }
}

/// A classic `for` at index `i` whose initializer or condition is no expression.
pub open spec fn for_rejected(ts: Seq<Token>, i: int, depth: nat) -> bool {
    let d = (depth - 1) as nat;
    depth > 0 && kind_in(ts, i + 1) == TokenKind::LeftParen && ((kind_in(ts, i + 2)
        != TokenKind::Semicolon && !declaration_start(ts, i + 2) && expression_at(ts, i + 2, 0, d)
        is None) || match initializer_at(ts, i + 2, d) {
        Some((init, j)) => kind_in(ts, j) != TokenKind::Semicolon && expression_at(ts, j, 0, d)
            is None,
        None => false,
    })
}

/// `const <type> <name> = <expr> ;` at index `i`.
pub open spec fn const_at(ts: Seq<Token>, i: int, depth: nat) -> Option<(SimpleStatement, int)> {
    if depth == 0 || !is_type_keyword(kind_in(ts, i + 1)) || kind_in(ts, i + 2)
        != TokenKind::Identifier || kind_in(ts, i + 3) != TokenKind::Equals {
        None
    } else {
        match expression_at(ts, i + 4, 0, (depth - 1) as nat) {
            Some((e, j)) => terminated(
                ts,
                SimpleStatement::Variable {
                    token: ts[i],
                    name: name_of(ts[i + 2].token_type),
                    declared_type: type_text(ts[i + 1].token_type),
                    value: Some(e),
                },
                j,
            ),
            None => None,
        }
    }
}

/// `return <expr>? ;` at index `i`.
pub open spec fn return_at(ts: Seq<Token>, i: int, depth: nat) -> Option<(SimpleStatement, int)> {
    if depth == 0 {
        None
    } else if kind_in(ts, i + 1) == TokenKind::Semicolon {
        terminated(ts, SimpleStatement::Return { token: ts[i], value: None }, i + 1)
    } else {
        match expression_at(ts, i + 1, 0, (depth - 1) as nat) {
            Some((e, j)) => terminated(
                ts,
                SimpleStatement::Return { token: ts[i], value: Some(e) },
                j,
            ),
            None => None,
        }
    }
}

/// The rest of a braced name list from index `i`, after the names `done`.
pub open spec fn names_from(ts: Seq<Token>, i: int, done: Seq<String>) -> Option<(Seq<String>, int)>
    decreases ts.len() - i,
{
    if !(0 <= i < ts.len()) {
        None
    } else if kind_in(ts, i) == TokenKind::RightBrace {
        Some((done, next_in(ts, i)))
    } else if kind_in(ts, i) == TokenKind::Identifier {
        let all = done.push(name_of(ts[i].token_type));
        let j = next_in(ts, i);
        if kind_in(ts, j) == TokenKind::Comma {
            let after = next_in(ts, j);
            if i < after < ts.len() {
                names_from(ts, after, all)
            } else {
                None
            }
        } else if kind_in(ts, j) == TokenKind::RightBrace {
            Some((all, next_in(ts, j)))
        } else {
            None
        }
    } else {
        None
    }
}

/// `{ <name> (, <name>)* ,? }` at index `i`.
pub open spec fn names_at(ts: Seq<Token>, i: int) -> Option<(Seq<String>, int)> {
    if kind_in(ts, i) == TokenKind::LeftBrace {
        names_from(ts, next_in(ts, i), Seq::empty())
    } else {
        None
    }
}

/// Named specifiers for `names`.
pub open spec fn named_imports(names: Seq<String>) -> Seq<ImportSpecifier> {
    Seq::new(names.len(), |k: int| ImportSpecifier::Named(names[k]))
}

/// Named specifiers for `names`.
pub open spec fn named_exports(names: Seq<String>) -> Seq<ExportSpecifier> {
    Seq::new(names.len(), |k: int| ExportSpecifier::Named(names[k]))
}

/// `enum <name> { <names> }` at index `i`.
pub open spec fn enum_at(ts: Seq<Token>, i: int) -> Option<(SimpleStatement, int)> {
    if kind_in(ts, i + 1) != TokenKind::Identifier {
        None
    } else {
        match names_at(ts, i + 2) {
            Some((variants, j)) => Some(
                (
                    SimpleStatement::Enum {
                        token: ts[i],
                        name: name_of(ts[i + 1].token_type),
                        variants,
                    },
                    j,
                ),
            ),
            None => None,
        }
    }
}

/// `import { <names> } from <string> ;` or `import <name> from <string> ;` at index `i`.
pub open spec fn import_at(ts: Seq<Token>, i: int) -> Option<(SimpleStatement, int)> {
    let head: Option<(Seq<ImportSpecifier>, int)> = if kind_in(ts, i + 1)
        == TokenKind::LeftBrace {
        match names_at(ts, i + 1) {
            Some((names, j)) => Some((named_imports(names), j)),
            None => None,
        }
    } else if kind_in(ts, i + 1) == TokenKind::Identifier {
        Some((seq![ImportSpecifier::Default(name_of(ts[i + 1].token_type))], i + 2))
    } else {
        None
    };
    match head {
        Some((imports, j)) => if kind_in(ts, j) == TokenKind::FromKeyword && kind_in(ts, j + 1)
            == TokenKind::String {
            terminated(
                ts,
                SimpleStatement::Import {
                    token: ts[i],
                    path: string_value(ts[j + 1].token_type),
                    imports,
                },
                j + 2,
            )
        } else {
            None
        },
        None => None,
    }
}

/// `export default ;` or `export { <names> } ;` at index `i`.
pub open spec fn export_at(ts: Seq<Token>, i: int) -> Option<(SimpleStatement, int)> {
    let head: Option<(Seq<ExportSpecifier>, int)> = if kind_in(ts, i + 1)
        == TokenKind::DefaultKeyword {
        Some((seq![ExportSpecifier::Default], i + 2))
    } else if kind_in(ts, i + 1) == TokenKind::LeftBrace {
        match names_at(ts, i + 1) {
            Some((names, j)) => Some((named_exports(names), j)),
            None => None,
        }
    } else {
        None
    };
    match head {
        Some((specifiers, j)) => terminated(
            ts,
            SimpleStatement::Export { token: ts[i], specifiers },
            j,
        ),
        None => None,
    }
}

/// The kinds that start a statement holding other statements, or an object, class,
/// interface or switch.
pub open spec fn starts_compound(k: TokenKind) -> bool {
    k == TokenKind::FunctionKeyword || k == TokenKind::IfKeyword || k == TokenKind::DoKeyword || k
        == TokenKind::WhileKeyword || k == TokenKind::ForKeyword || k == TokenKind::ObjectKeyword
        || k == TokenKind::ClassKeyword || k == TokenKind::InterfaceKeyword || k
        == TokenKind::SwitchKeyword || k == TokenKind::LeftBrace
}

/// The simple statement at index `i` as the statement dispatch reads it, where the
/// statement parses without error; `None` otherwise, and for compound statements.
#[verifier::opaque]
pub open spec fn form_at(ts: Seq<Token>, i: int, depth: nat) -> Option<(SimpleStatement, int)> {
    let k = kind_in(ts, i);
    if depth == 0 {
        None
    } else if declaration_start(ts, i) {
        variable_at(ts, i, (depth - 1) as nat)
    } else if k == TokenKind::ConstKeyword {
        const_at(ts, i, (depth - 1) as nat)
    } else if k == TokenKind::ReturnKeyword {
        return_at(ts, i, (depth - 1) as nat)
    } else if k == TokenKind::BreakKeyword || k == TokenKind::ContinueKeyword {
        let token = ts[i];
        let j = next_in(ts, i);
        let end = if kind_in(ts, j) == TokenKind::Semicolon {
            next_in(ts, j)
        } else {
            j
        };
        if k == TokenKind::BreakKeyword {
            Some((SimpleStatement::Break { token }, end))
        } else {
            Some((SimpleStatement::Continue { token }, end))
        }
    } else if k == TokenKind::EnumKeyword {
        enum_at(ts, i)
    } else if k == TokenKind::ImportKeyword {
        import_at(ts, i)
    } else if k == TokenKind::ExportKeyword {
        export_at(ts, i)
    } else if starts_compound(k) {
        None
    } else {
        match expression_at(ts, i, 0, (depth - 1) as nat) {
            Some((e, j)) => terminated(ts, SimpleStatement::Expression(e), j),
            None => None,
        }
    }
}

/// The simple statement at index `i`, parsed with nesting budget `depth`.
#[verifier::opaque]
pub open spec fn statement_at(ts: Seq<Token>, i: int, depth: nat) -> Option<(SimpleStatement, int)> {
    if depth == 0 {
        None
    } else {
        form_at(ts, i, (depth - 1) as nat)
    }
}

/// The statements from index `i` to the end of input, where all of them are simple and
/// parse without error.
pub open spec fn simple_statements_from(ts: Seq<Token>, i: int, depth: nat) -> Option<
    Seq<SimpleStatement>,
>
    decreases ts.len() - i,
{
    if !(0 <= i < ts.len()) {
        None
    } else if kind_in(ts, i) == TokenKind::EOF {
        Some(Seq::empty())
    } else {
        match statement_at(ts, i, depth) {
            Some((v, j)) => if i < j < ts.len() {
                match simple_statements_from(ts, j, depth) {
                    Some(vs) => Some(seq![v] + vs),
                    None => None,
                }
            } else {
                None
            },
            None => None,
        }
    }
}

/// A statement as plain values, where its bodies are made of simple statements.
pub enum TopView {
    Simple(SimpleStatement),
    Block(Seq<SimpleStatement>),
    Function {
        token: Token,
        name: String,
        parameters: Seq<(Seq<char>, Seq<char>)>,
        return_type: Option<Seq<char>>,
        body: Seq<SimpleStatement>,
    },
    If {
        token: Token,
        condition: ExprView,
        then_body: Seq<SimpleStatement>,
        else_part: ElseView,
    },
    While { token: Token, condition: ExprView, body: Seq<SimpleStatement> },
    DoWhile { token: Token, body: Seq<SimpleStatement>, condition: ExprView },
    For {
        token: Token,
        initializer: Option<SimpleStatement>,
        condition: Option<ExprView>,
        increment: Option<ExprView>,
        body: Seq<SimpleStatement>,
    },
    ForOf { token: Token, variable: String, iterator: ExprView, body: Seq<SimpleStatement> },
    Object { token: Token, name: Seq<char>, properties: Seq<(String, ExprView)> },
    Class {
        token: Token,
        name: String,
        superclass: Option<String>,
        interfaces: Seq<String>,
        members: Seq<MemberView>,
    },
    Interface { token: Token, name: String, members: Seq<MemberView> },
    Switch {
        token: Token,
        subject: ExprView,
        cases: Seq<(ExprView, Seq<SimpleStatement>)>,
        default: Option<Seq<SimpleStatement>>,
    },
}

/// Whether the statement `s` is `v`.
pub open spec fn is_top(s: Statement, v: TopView) -> bool {
    match v {
        TopView::Simple(x) => is_simple(s, x),
        TopView::Block(b) => block_of(s, b),
        TopView::Function { token, name, parameters, return_type, body } => s matches Statement::FunctionDeclaration { token: t, name: n, parameters: p, body: b, return_type: rr }
            && t == token && n == name && parameter_views(p@) == parameters && simple_list(b@, body)
            && optional_text(rr) == return_type,
        TopView::If { token, condition, then_body, else_part } => s matches Statement::IfStatement { token: t, condition: x, then_branch: tbx, else_branch: ebx }
            && t == token && expr_view(x) == condition && block_of(*tbx, then_body) && else_of(
            ebx,
            else_part,
        ),
        TopView::While { token, condition, body } => s matches Statement::WhileStatement { token: t, condition: x, body: bx }
            && t == token && expr_view(x) == condition && block_of(*bx, body),
        TopView::DoWhile { token, body, condition } => s matches Statement::DoWhileStatement { token: t, body: bx, condition: x }
            && t == token && expr_view(x) == condition && block_of(*bx, body),
        TopView::For { token, initializer, condition, increment, body } => s matches Statement::ForStatement { token: t, initializer: ix, condition: cx, increment: nx, body: bx }
            && t == token && match initializer {
            Some(v) => ix matches Some(st) && is_simple(*st, v),
            None => ix is None,
        } && optional_view(cx) == condition && optional_view(nx) == increment && block_of(*bx, body),
        TopView::ForOf { token, variable, iterator, body } => s matches Statement::ForEachStatement { token: t, element_variable: n, iterator: x, body: bx }
            && t == token && n == variable && expr_view(x) == iterator && block_of(*bx, body),
        TopView::Object { token, name, properties } => s matches Statement::ObjectDeclaration { token: t, name: n, properties: ps }
            && t == token && n@ == name && property_views(ps@) == properties,
        TopView::Class { token, name, superclass, interfaces, members } => s matches Statement::ClassDeclaration { token: t, name: n, superclass: sc, interfaces: is, members: m }
            && t == token && n == name && sc == superclass && is@ == interfaces && members_match(m@, members),
        TopView::Interface { token, name, members } => s matches Statement::InterfaceDeclaration { token: t, name: n, members: m }
            && t == token && n == name && signatures_match(m@, members),
        TopView::Switch { token, subject, cases, default } => s matches Statement::SwitchStatement { token: t, expression: x, cases: ys, default: dd }
            && t == token && expr_view(x) == subject && cases_match(ys@, cases) && default_match(dd, default),
    }
}

/// The statement at index `i` as the statement dispatch reads it, with bodies made of
/// simple statements, where it parses without error.
#[verifier::opaque]
pub open spec fn top_form_at(ts: Seq<Token>, i: int, depth: nat) -> Option<(TopView, int)> {
    let k = kind_in(ts, i);
    let token = ts[i];
    let d = (depth - 1) as nat;
    if depth == 0 {
        None
    } else if k == TokenKind::FunctionKeyword {
        match function_at(ts, i, d) {
            Some((name, parameters, return_type, body, j)) => Some(
                (TopView::Function { token, name, parameters, return_type, body }, j),
            ),
            None => None,
        }
    } else if k == TokenKind::IfKeyword {
        match if_at(ts, i, d) {
            Some((condition, then_body, else_part, j)) => Some(
                (TopView::If { token, condition, then_body, else_part }, j),
            ),
            None => None,
        }
    } else if k == TokenKind::DoKeyword {
        match do_at(ts, i, d) {
            Some((body, condition, j)) => Some((TopView::DoWhile { token, body, condition }, j)),
            None => None,
        }
    } else if k == TokenKind::WhileKeyword {
        match while_at(ts, i, d) {
            Some((condition, body, j)) => Some((TopView::While { token, condition, body }, j)),
            None => None,
        }
    } else if k == TokenKind::ForKeyword {
        if kind_in(ts, i + 1) == TokenKind::LeftParen && kind_in(ts, i + 2)
            == TokenKind::Identifier && kind_in(ts, i + 3) == TokenKind::OfKeyword {
            match for_of_at(ts, i, d) {
                Some((variable, iterator, body, j)) => Some(
                    (TopView::ForOf { token, variable, iterator, body }, j),
                ),
                None => None,
            }
        } else {
            match for_at(ts, i, d) {
                Some((initializer, condition, increment, body, j)) => Some(
                    (TopView::For { token, initializer, condition, increment, body }, j),
                ),
                None => None,
            }
        }
    } else if k == TokenKind::ObjectKeyword {
        match object_at(ts, i, d) {
            Some((name, properties, j)) => Some((TopView::Object { token, name, properties }, j)),
            None => None,
        }
    } else if k == TokenKind::ClassKeyword {
        match class_at(ts, i, d) {
            Some((name, superclass, interfaces, members, j)) => Some(
                (TopView::Class { token, name, superclass, interfaces, members }, j),
            ),
            None => None,
        }
    } else if k == TokenKind::InterfaceKeyword {
        match interface_at(ts, i, d) {
            Some((name, members, j)) => Some((TopView::Interface { token, name, members }, j)),
            None => None,
        }
    } else if k == TokenKind::SwitchKeyword {
        match switch_at(ts, i, d) {
            Some((subject, cases, default, j)) => Some(
                (TopView::Switch { token, subject, cases, default }, j),
            ),
            None => None,
        }
    } else if k == TokenKind::LeftBrace {
        match block_at(ts, i, d) {
            Some((body, j)) => Some((TopView::Block(body), j)),
            None => None,
        }
    } else {
        match form_at(ts, i, depth) {
            Some((v, j)) => Some((TopView::Simple(v), j)),
            None => None,
        }
    }
}

/// The statement at index `i`, parsed with nesting budget `depth`.
pub open spec fn top_at(ts: Seq<Token>, i: int, depth: nat) -> Option<(TopView, int)> {
    if depth == 0 {
        None
    } else {
        top_form_at(ts, i, (depth - 1) as nat)
    }
}

/// The statements from index `i` to the end of input, where each parses without error and
/// its bodies are made of simple statements.
pub open spec fn top_statements_from(ts: Seq<Token>, i: int, depth: nat) -> Option<Seq<TopView>>
    decreases ts.len() - i,
{
    if !(0 <= i < ts.len()) {
        None
    } else if kind_in(ts, i) == TokenKind::EOF {
        Some(Seq::empty())
    } else {
        match top_at(ts, i, depth) {
            Some((v, j)) => if i < j < ts.len() {
                match top_statements_from(ts, j, depth) {
                    Some(vs) => Some(seq![v] + vs),
                    None => None,
                }
            } else {
                None
            },
            None => None,
        }
    }
}

/// The first index from `j` on where a `;`, a `}` or the end of input stands.
pub open spec fn boundary_from(ts: Seq<Token>, j: int) -> int
    decreases ts.len() - j,
{
    if 0 <= j < ts.len() && !(kind_in(ts, j) == TokenKind::Semicolon || kind_in(ts, j)
        == TokenKind::RightBrace || kind_in(ts, j) == TokenKind::EOF) {
        boundary_from(ts, j + 1)
    } else {
        j
    }
}

/// Where parsing resumes after a statement that started at `start` failed at `j`: past the
/// next `;`, or on the next `}` or end of input, moving on by one token where it would
/// otherwise not have moved.
pub open spec fn resume_at(ts: Seq<Token>, start: int, j: int) -> int {
    let stop = boundary_from(ts, j);
    if (kind_in(ts, stop) == TokenKind::Semicolon || stop == start) && stop + 1 < ts.len() {
        stop + 1
    } else {
        stop
    }
}

/// A declaration at index `i` whose type is not followed by a name.
pub open spec fn declaration_rejected(ts: Seq<Token>, i: int) -> bool {
    declaration_start(ts, i) && kind_in(ts, i + 1) != TokenKind::Identifier
}

/// The statements from index `i` to the end of input and the number of errors recorded,
/// where every statement either parses without error (with bodies made of simple
/// statements) or is a declaration whose type is not followed by a name: that one is
/// reported once, skipped as far as [`resume_at`] says, and left out.
pub open spec fn recovering_from(ts: Seq<Token>, i: int, depth: nat) -> Option<(Seq<TopView>, nat)>
    decreases ts.len() - i,
{
    if !(0 <= i < ts.len()) {
        None
    } else if kind_in(ts, i) == TokenKind::EOF {
        Some((Seq::empty(), 0))
    } else {
        match top_at(ts, i, depth) {
            Some((v, j)) => if i < j < ts.len() {
                match recovering_from(ts, j, depth) {
                    Some((vs, n)) => Some((seq![v] + vs, n)),
                    None => None,
                }
            } else {
                None
            },
            None => if depth > 2 && declaration_rejected(ts, i) && i < resume_at(ts, i, i + 1)
                < ts.len() {
                match recovering_from(ts, resume_at(ts, i, i + 1), depth) {
                    Some((vs, n)) => Some((vs, n + 1)),
                    None => None,
                }
            } else {
                None
            },
        }
    }
}

/// The number of errors a read with recovery records.
pub open spec fn errors_of(o: Option<(Seq<TopView>, nat)>) -> nat {
    match o {
        Some((_, n)) => n,
        None => 0,
    }
}

} // verus!
