//! Expressions, by precedence climbing: a primary expression, then every infix or postfix
//! construct that binds tighter than the caller's threshold.
use vstd::prelude::*;

use crate::ast::{Expression, LiteralValue};
use crate::grammar::{
    arguments_at, arguments_from, climb, dict_at, expr_view, expression_at, lemma_call_view,
    lemma_dict_view, lemma_new_view, pair_views, pairs_from, primary_at_spec, views, ExprView,
};
use crate::parser::Parser;
use crate::token::{TokenKind, TokenType};

verus! {

/// How tightly an infix or postfix construct that starts with a token of kind `k` binds;
/// -1 when such a token continues no expression.
pub open spec fn infix_precedence(k: TokenKind) -> int {
    if is_assignment(k) {
        1
    } else if k == TokenKind::LogicalOr {
        2
    } else if k == TokenKind::LogicalAnd {
        3
    } else if k == TokenKind::EqualsEquals || k == TokenKind::NotEquals {
        4
    } else if k == TokenKind::GreaterThan || k == TokenKind::LessThan || k
        == TokenKind::GreaterThanEquals || k == TokenKind::LessThanEquals {
        5
    } else if k == TokenKind::Plus || k == TokenKind::Minus {
        6
    } else if k == TokenKind::Star || k == TokenKind::Slash || k == TokenKind::Percent {
        7
    } else if k == TokenKind::LeftParen {
        8
    } else if k == TokenKind::LeftBracket {
        9
    } else if k == TokenKind::Dot {
        10
    } else {
        -1
    }
}

/// The assignment operators.
pub open spec fn is_assignment(k: TokenKind) -> bool {
    k == TokenKind::Equals || k == TokenKind::PlusEquals || k == TokenKind::MinusEquals || k
        == TokenKind::StarEquals || k == TokenKind::SlashEquals || k == TokenKind::PercentEquals
}

/// The threshold for the operand of a prefix `-` or `!`: only calls, indexing and member
/// access bind tighter.
pub const PREFIX_PRECEDENCE: i32 = 7;

/// The threshold of a whole expression: every construct binds.
pub const LOWEST: i32 = 0;

/// How tightly a construct that starts with a token of kind `k` binds.
pub fn precedence(k: TokenKind) -> (r: i32)
    ensures
        r == infix_precedence(k),
{
    match k {
        TokenKind::Equals | TokenKind::PlusEquals | TokenKind::MinusEquals | TokenKind::StarEquals
        | TokenKind::SlashEquals | TokenKind::PercentEquals => 1,
        TokenKind::LogicalOr => 2,
        TokenKind::LogicalAnd => 3,
        TokenKind::EqualsEquals | TokenKind::NotEquals => 4,
        TokenKind::GreaterThan | TokenKind::LessThan | TokenKind::GreaterThanEquals
        | TokenKind::LessThanEquals => 5,
        TokenKind::Plus | TokenKind::Minus => 6,
        TokenKind::Star | TokenKind::Slash | TokenKind::Percent => 7,
        TokenKind::LeftParen => 8,
        TokenKind::LeftBracket => 9,
        TokenKind::Dot => 10,
        _ => -1,
    }
}

/// The tokens that are a whole primary expression by themselves.
pub open spec fn simple_primary(k: TokenKind) -> bool {
    k == TokenKind::Identifier || k == TokenKind::Int || k == TokenKind::Float || k
        == TokenKind::String || k == TokenKind::TrueKeyword || k == TokenKind::FalseKeyword || k
        == TokenKind::ThisKeyword
}

impl Parser {
    /// The expression at the cursor that takes every construct binding tighter than `min`:
    /// exactly the one the grammar gives, ending where the cursor is left. Where the
    /// grammar gives none, an error was recorded.
    pub(crate) fn parse_expression(&mut self, min: i32, depth: u32) -> (r: Option<Expression>)
        requires
            old(self).wf(),
            0 <= min,
        ensures
            old(self).step(final(self), r is None),
            r is Some ==> final(self).errors@ == old(self).errors@,
            r matches Some(e) ==> expression_at(
                old(self).tokens@,
                old(self).position as int,
                min as int,
                depth as nat,
            ) == Some((expr_view(e), final(self).position as int)),
            r is None ==> expression_at(
                old(self).tokens@,
                old(self).position as int,
                min as int,
                depth as nat,
            ) is None,
            r is Some ==> final(self).position > old(self).position,
            r is Some ==> infix_precedence(final(self).current_kind()) <= min,
            depth > 1 && simple_primary(old(self).current_kind()) && infix_precedence(
                old(self).kind_at(old(self).position + 1),
            ) <= min ==> r is Some && final(self).position == old(self).position + 1
                && final(self).errors@ == old(self).errors@,
        decreases depth,
    {
        if depth == 0 {
            self.too_deep();
            return None;
        }
        let ghost ts = self.tokens@;
        let mut left = match self.parse_primary(depth - 1) {
            Some(e) => e,
            None => return None,
        };
        while precedence(self.kind()) > min
            invariant
                self.wf(),
                old(self).follows(self),
                ts == old(self).tokens@,
                self.errors@ == old(self).errors@,
                self.position > old(self).position,
                depth > 0,
                0 <= min,
                expression_at(ts, old(self).position as int, min as int, depth as nat) == climb(
                    ts,
                    expr_view(left),
                    self.position as int,
                    min as int,
                    depth as nat,
                ),
                depth > 1 && simple_primary(old(self).current_kind()) && infix_precedence(
                    old(self).kind_at(old(self).position + 1),
                ) <= min ==> self.position == old(self).position + 1 && self.errors@ == old(self).errors@,
            decreases self.tokens@.len() - self.position,
        {
            let ghost i = self.position as int;
            let k = self.kind();
            let p = precedence(k);
            let token = self.current_token();
            self.next_token();
            if k == TokenKind::Equals || k == TokenKind::PlusEquals || k == TokenKind::MinusEquals
                || k == TokenKind::StarEquals || k == TokenKind::SlashEquals || k
                == TokenKind::PercentEquals {
                // Right-associative: the right side takes every construct.
                let right = match self.parse_expression(LOWEST, depth - 1) {
                    Some(e) => e,
                    None => return None,
                };
                left = Expression::Assignment { token, left: Box::new(left), right: Box::new(right) };
            } else if k == TokenKind::LeftParen {
                let arguments = match self.parse_arguments(depth - 1) {
                    Some(a) => a,
                    None => return None,
                };
                proof {
                    lemma_call_view(token, left, arguments);
                }
                left = Expression::FunctionCall { token, callee: Box::new(left), arguments };
            } else if k == TokenKind::LeftBracket {
                let index = match self.parse_expression(LOWEST, depth - 1) {
                    Some(e) => e,
                    None => return None,
                };
                if !self.expect(TokenKind::RightBracket) {
                    return None;
                }
                left = Expression::IndexAccess { token, array: Box::new(left), index: Box::new(index) };
            } else if k == TokenKind::Dot {
                let member = match self.expect_identifier() {
                    Some(m) => m,
                    None => return None,
                };
                left = Expression::MemberAccess { token, object: Box::new(left), member };
            } else {
                // Left-associative: the right side takes only what binds tighter.
                let right = match self.parse_expression(p, depth - 1) {
                    Some(e) => e,
                    None => return None,
                };
                let operator = token.token_type.duplicate();
                left = Expression::BinaryOperation {
                    token,
                    left: Box::new(left),
                    operator,
                    right: Box::new(right),
                };
            }
        }
        Some(left)
    }

    /// The primary expression at the cursor, exactly as the grammar gives it: an
    /// identifier, a literal, a prefix operation, a parenthesized expression, a dictionary
    /// literal, a `new` expression or `this`.
    #[verifier::rlimit(40)]
    fn parse_primary(&mut self, depth: u32) -> (r: Option<Expression>)
        requires
            old(self).wf(),
        ensures
            old(self).step(final(self), r is None),
            r is Some ==> final(self).errors@ == old(self).errors@,
            r matches Some(e) ==> primary_at_spec(
                old(self).tokens@,
                old(self).position as int,
                depth as nat,
            ) == Some((expr_view(e), final(self).position as int)),
            r is None ==> primary_at_spec(
                old(self).tokens@,
                old(self).position as int,
                depth as nat,
            ) is None,
            r is Some ==> final(self).position > old(self).position,
            depth > 0 && simple_primary(old(self).current_kind()) ==> r is Some
                && final(self).position == old(self).position + 1
                && final(self).errors@ == old(self).errors@,
        decreases depth,
    {
        if depth == 0 {
            self.too_deep();
            return None;
        }
        let k = self.kind();
        let token = self.current_token();
        match k {
            TokenKind::Identifier => {
                let name = match self.expect_identifier() {
                    Some(n) => n,
                    None => return None,
                };
                Some(Expression::Identifier { token, name })
            },
            TokenKind::Int | TokenKind::Float | TokenKind::String | TokenKind::TrueKeyword
            | TokenKind::FalseKeyword => {
                let value = match &token.token_type {
                    TokenType::Int(v) => LiteralValue::Int(*v),
                    TokenType::Float(s) => LiteralValue::Float(s.clone()),
                    TokenType::String(s) => LiteralValue::String(s.clone()),
                    TokenType::TrueKeyword => LiteralValue::Bool(true),
                    _ => LiteralValue::Bool(false),
                };
                self.next_token();
                Some(Expression::Literal { token, value })
            },
            TokenKind::Minus | TokenKind::LogicalNot => {
                self.next_token();
                let operand = match self.parse_expression(PREFIX_PRECEDENCE, depth - 1) {
                    Some(e) => e,
                    None => return None,
                };
                let operator = token.token_type.duplicate();
                Some(Expression::UnaryOperation { token, operator, operand: Box::new(operand) })
            },
            TokenKind::LeftParen => {
                self.next_token();
                let inner = match self.parse_expression(LOWEST, depth - 1) {
                    Some(e) => e,
                    None => return None,
                };
                if !self.expect(TokenKind::RightParen) {
                    return None;
                }
                Some(inner)
            },
            TokenKind::LeftBrace => self.parse_dict_literal(depth - 1),
            TokenKind::NewKeyword => {
                self.next_token();
                let class_name = match self.expect_identifier() {
                    Some(n) => n,
                    None => return None,
                };
                if !self.expect(TokenKind::LeftParen) {
                    return None;
                }
                let arguments = match self.parse_arguments(depth - 1) {
                    Some(a) => a,
                    None => return None,
                };
                proof {
                    lemma_new_view(token, class_name, arguments);
                }
                Some(Expression::NewExpression { token, class_name, arguments })
            },
            TokenKind::ThisKeyword => {
                self.next_token();
                Some(Expression::This { token })
            },
            _ => {
                self.error_expected("expression");
                None
            },
        }
    }

    /// The arguments of a call after its `(`, up to and including the closing `)`, exactly
    /// as the grammar gives them.
    fn parse_arguments(&mut self, depth: u32) -> (r: Option<Vec<Expression>>)
        requires
            old(self).wf(),
        ensures
            old(self).step(final(self), r is None),
            r is Some ==> final(self).errors@ == old(self).errors@,
            r matches Some(v) ==> arguments_at(
                old(self).tokens@,
                old(self).position as int,
                depth as nat,
            ) == Some((views(v@), final(self).position as int)),
            r is None ==> arguments_at(
                old(self).tokens@,
                old(self).position as int,
                depth as nat,
            ) is None,
        decreases depth,
    {
        if depth == 0 {
            self.too_deep();
            return None;
        }
        let ghost ts = self.tokens@;
        let mut arguments: Vec<Expression> = Vec::new();
        proof {
            assert(views(arguments@) =~= Seq::<ExprView>::empty());
        }
        if self.skip_if(TokenKind::RightParen) {
            return Some(arguments);
        }
        loop
            invariant
                self.wf(),
                old(self).follows(self),
                ts == old(self).tokens@,
                self.errors@ == old(self).errors@,
                depth > 0,
                arguments_at(ts, old(self).position as int, depth as nat) == arguments_from(
                    ts,
                    self.position as int,
                    depth as nat,
                    views(arguments@),
                ),
            decreases self.tokens@.len() - self.position,
        {
            let argument = match self.parse_expression(LOWEST, depth - 1) {
                Some(e) => e,
                None => return None,
            };
            let ghost before = views(arguments@);
            let ghost a = expr_view(argument);
            arguments.push(argument);
            proof {
                assert(views(arguments@) =~= before.push(a));
            }
            if !self.skip_if(TokenKind::Comma) {
                if self.expect(TokenKind::RightParen) {
                    return Some(arguments);
                }
                return None;
            }
        }
    }

    /// A `{` in expression position: a dictionary literal when the token after it could be
    /// a key (an identifier or a string) or closes it at once; anything else there would
    /// be a block, which is no expression, and is reported.
    fn parse_dict_literal(&mut self, depth: u32) -> (r: Option<Expression>)
        requires
            old(self).wf(),
            old(self).current_kind() == TokenKind::LeftBrace,
        ensures
            old(self).step(final(self), r is None),
            r is Some ==> final(self).errors@ == old(self).errors@,
            r matches Some(e) ==> dict_at(
                old(self).tokens@,
                old(self).position as int,
                depth as nat,
            ) == Some((expr_view(e), final(self).position as int)),
            r is None ==> dict_at(
                old(self).tokens@,
                old(self).position as int,
                depth as nat,
            ) is None,
            r is Some ==> final(self).position > old(self).position,
        decreases depth,
    {
        if depth == 0 {
            self.too_deep();
            return None;
        }
        let ghost ts = self.tokens@;
        let ghost start = self.position as int;
        let token = self.current_token();
        let next = self.kind_ahead(1);
        let mut pairs: Vec<(Expression, Expression)> = Vec::new();
        proof {
            assert(pair_views(pairs@) =~= Seq::<(ExprView, ExprView)>::empty());
        }
        self.next_token();
        if next == TokenKind::RightBrace {
            self.next_token();
            proof {
                lemma_dict_view(token, pairs);
            }
            return Some(Expression::DictLiteral { token, pairs });
        }
        if next != TokenKind::Identifier && next != TokenKind::String {
            self.error_expected("dictionary key");
            return None;
        }
        loop
            invariant
                self.wf(),
                old(self).follows(self),
                ts == old(self).tokens@,
                token == ts[start],
                start == old(self).position as int,
                self.errors@ == old(self).errors@,
                self.position > start,
                depth > 0,
                dict_at(ts, start, depth as nat) == pairs_from(
                    ts,
                    token,
                    self.position as int,
                    depth as nat,
                    pair_views(pairs@),
                ),
            decreases self.tokens@.len() - self.position,
        {
            let key = match self.parse_expression(LOWEST, depth - 1) {
                Some(e) => e,
                None => return None,
            };
            if !self.expect(TokenKind::Colon) {
                return None;
            }
            let value = match self.parse_expression(LOWEST, depth - 1) {
                Some(e) => e,
                None => return None,
            };
            let ghost before = pair_views(pairs@);
            let ghost kv = (expr_view(key), expr_view(value));
            pairs.push((key, value));
            proof {
                assert(pair_views(pairs@) =~= before.push(kv));
            }
            if !self.skip_if(TokenKind::Comma) || self.at(TokenKind::RightBrace) {
                if !self.expect(TokenKind::RightBrace) {
                    return None;
                }
                proof {
                    lemma_dict_view(token, pairs);
                }
                return Some(Expression::DictLiteral { token, pairs });
            }
        }
    }
}

} // verus!
