//! Statements, by recursive descent: the current token picks the production.
use vstd::prelude::*;

use crate::ast::Statement;
use crate::expression::LOWEST;
use crate::grammar::{
    declaration_rejected, errors_of, recovering_from, resume_at, else_of, is_top, top_at, top_form_at, top_statements_from, TopView, if_rejected, switch_rejected, for_rejected, initializer_at, for_at, optional_view, block_of, function_at, while_at, do_at, for_of_at, if_at, optional_text, return_type_at, parameter_views, parameters_at, parameters_from, block_at, block_from, lemma_block_close, lemma_block_eof, lemma_block_step, cases_match, condition_at, default_match, lemma_case_step, lemma_default_step,
    lemma_switch_end, switch_at, switch_from, ExprView, expr_view, expression_at,
    arm_at, arm_from, ends_arm, lemma_arm_step, lemma_arm_stop, simple_list, unterminated_declaration, variable_head_at, const_at, form_at, is_simple, kind_in, return_at, simple_statements_from, statement_at,
    variable_at, SimpleStatement,
};
use crate::parser::{is_type_keyword, type_text, Parser, MAX_DEPTH};
use crate::token::{Token, TokenKind};

verus! {

/// Whether the tokens at index `i` start a variable declaration: a built-in type keyword,
/// or a user type name followed by the variable's name.
pub open spec fn starts_declaration(p: &Parser, i: int) -> bool {
    is_type_keyword(p.kind_at(i)) || (p.kind_at(i) == TokenKind::Identifier && p.kind_at(i + 1)
        == TokenKind::Identifier)
}

/// Whether the tokens at index `i` start a for-of loop: `for ( <name> of`.
pub open spec fn starts_for_of(p: &Parser, i: int) -> bool {
    p.kind_at(i) == TokenKind::ForKeyword && p.kind_at(i + 1) == TokenKind::LeftParen && p.kind_at(
        i + 2,
    ) == TokenKind::Identifier && p.kind_at(i + 3) == TokenKind::OfKeyword
}

/// What the tokens at index `i` fix of a statement that starts there: its production, its
/// token (the first token of the statement), and a declared name or type that stands at a
/// fixed place after it.
pub open spec fn selects(p: &Parser, i: int, s: Statement) -> bool {
    let k = p.kind_at(i);
    let t = p.tokens@[i];
    if starts_declaration(p, i) {
        s matches Statement::VariableDeclaration { token, name, declared_type: Some(ty), .. }
            && token == t && name@ == p.text_at(i + 1) && ty@ == type_text(t.token_type)
    } else if k == TokenKind::ConstKeyword {
        s matches Statement::VariableDeclaration { token, name, declared_type: Some(ty), .. }
            && token == t && name@ == p.text_at(i + 2) && ty@ == type_text(
            p.tokens@[i + 1].token_type,
        )
    } else if k == TokenKind::FunctionKeyword {
        s matches Statement::FunctionDeclaration { token, name, .. } && token == t && name@
            == p.text_at(i + 1)
    } else if k == TokenKind::ReturnKeyword {
        s matches Statement::ReturnStatement { token, .. } && token == t
    } else if k == TokenKind::IfKeyword {
        s matches Statement::IfStatement { token, .. } && token == t
    } else if k == TokenKind::DoKeyword {
        s matches Statement::DoWhileStatement { token, .. } && token == t
    } else if k == TokenKind::WhileKeyword {
        s matches Statement::WhileStatement { token, .. } && token == t
    } else if starts_for_of(p, i) {
        s matches Statement::ForEachStatement { token, element_variable, .. } && token == t
            && element_variable@ == p.text_at(i + 2)
    } else if k == TokenKind::ForKeyword {
        s matches Statement::ForStatement { token, .. } && token == t
    } else if k == TokenKind::BreakKeyword {
        s matches Statement::BreakStatement { token } && token == t
    } else if k == TokenKind::ContinueKeyword {
        s matches Statement::ContinueStatement { token } && token == t
    } else if k == TokenKind::EnumKeyword {
        s matches Statement::EnumDeclaration { token, name, .. } && token == t && name@ == p.text_at(
            i + 1,
        )
    } else if k == TokenKind::ObjectKeyword {
        s matches Statement::ObjectDeclaration { token, .. } && token == t
    } else if k == TokenKind::ClassKeyword {
        s matches Statement::ClassDeclaration { token, name, .. } && token == t && name@
            == p.text_at(i + 1)
    } else if k == TokenKind::InterfaceKeyword {
        s matches Statement::InterfaceDeclaration { token, name, .. } && token == t && name@
            == p.text_at(i + 1)
    } else if k == TokenKind::ImportKeyword {
        s matches Statement::ImportDeclaration { token, .. } && token == t
    } else if k == TokenKind::ExportKeyword {
        s matches Statement::ExportDeclaration { token, .. } && token == t
    } else if k == TokenKind::SwitchKeyword {
        s matches Statement::SwitchStatement { token, .. } && token == t
    } else if k == TokenKind::LeftBrace {
        s is BlockStatement
    } else {
        s is Expression
    }
}

/// Whether `starts` gives, in increasing order, an index in `lo..hi` where each statement
/// of `ss` starts, with what [`selects`] says the tokens there fix of it.
pub open spec fn starts_in_order(
    p: &Parser,
    lo: int,
    hi: int,
    ss: Seq<Statement>,
    starts: Seq<int>,
) -> bool {
    &&& starts.len() == ss.len()
    &&& forall|i: int|
        0 <= i < ss.len() ==> lo <= #[trigger] starts[i] < hi && selects(p, starts[i], ss[i])
    &&& forall|i: int, j: int| 0 <= i < j < ss.len() ==> starts[i] < starts[j]
}

/// Where parsing goes on after a statement that failed between `start` and `end`: just
/// after a `;`, on a `}` or the end of input, or one token further on.
pub open spec fn resumes(p: &Parser, start: int, end: int) -> bool {
    p.kind_at(end - 1) == TokenKind::Semicolon || p.kind_at(end) == TokenKind::RightBrace
        || p.kind_at(end) == TokenKind::EOF || end == start + 1
}

/// A record of how a parse went from `p` to `q`: the statements were tried from the
/// indices `att` on, each up to `ends` and up to the next try; `kept` says which gave a
/// statement; `errs` counts the errors before each try and at the end. A try that gave no
/// statement recorded at least one error, and parsing resumed as [`resumes`] says.
pub open spec fn recovery_trace(
    p: &Parser,
    q: &Parser,
    att: Seq<int>,
    ends: Seq<int>,
    kept: Seq<bool>,
    errs: Seq<int>,
) -> bool {
    &&& att.len() == ends.len() && att.len() == kept.len() && errs.len() == att.len() + 1
    &&& errs[0] == p.errors@.len() && errs[att.len() as int] == q.errors@.len()
    &&& att.len() > 0 ==> att[0] == p.position && ends[att.len() - 1] == q.position
    &&& att.len() == 0 ==> p.position == q.position
    &&& forall|k: int| 0 <= k < att.len() ==> #[trigger] att[k] < ends[k]
    &&& forall|k: int| 0 <= k < att.len() - 1 ==> #[trigger] ends[k] == att[k + 1]
    &&& forall|k: int| 0 <= k < att.len() ==> #[trigger] errs[k] <= errs[k + 1]
    &&& forall|k: int|
        0 <= k < att.len() && !#[trigger] kept[k] ==> errs[k] < errs[k + 1] && resumes(
            p,
            att[k],
            ends[k],
        )
}

/// A program of such statements goes on, from one of them, with the next ones.
proof fn lemma_clean_step(ts: Seq<Token>, start: int, n: int, vs: Seq<TopView>)
    requires
        0 <= start < ts.len(),
        0 <= n <= vs.len(),
        kind_in(ts, start) != TokenKind::EOF,
        top_statements_from(ts, start, MAX_DEPTH as nat) == Some(
            vs.subrange(n, vs.len() as int),
        ),
    ensures
        top_at(ts, start, MAX_DEPTH as nat) matches Some((v, j)) && n < vs.len() && v
            == vs[n] && start < j < ts.len() && top_statements_from(ts, j, MAX_DEPTH as nat)
            == Some(vs.subrange(n + 1, vs.len() as int)),
{
    let tail = vs.subrange(n, vs.len() as int);
    if let Some((v, j)) = top_at(ts, start, MAX_DEPTH as nat) {
        if let Some(rest) = top_statements_from(ts, j, MAX_DEPTH as nat) {
            assert(tail == seq![v] + rest);
            assert(tail[0] == v);
            assert(rest =~= tail.subrange(1, tail.len() as int));
            assert(tail.subrange(1, tail.len() as int) =~= vs.subrange(n + 1, vs.len() as int));
        }
    }
}

/// A program read with recovery goes on, from one of its statements, with the rest.
proof fn lemma_recover_step(ts: Seq<Token>, start: int, n: int, vs: Seq<TopView>)
    requires
        0 <= start < ts.len(),
        0 <= n <= vs.len(),
        kind_in(ts, start) != TokenKind::EOF,
        recovering_from(ts, start, MAX_DEPTH as nat) matches Some((rest, m)) && rest == vs.subrange(
            n,
            vs.len() as int,
        ),
    ensures
        match top_at(ts, start, MAX_DEPTH as nat) {
            Some((v, j)) => n < vs.len() && v == vs[n] && start < j < ts.len() && (recovering_from(
                ts,
                j,
                MAX_DEPTH as nat,
            ) matches Some((r2, m2)) && r2 == vs.subrange(n + 1, vs.len() as int) && m2
                == errors_of(recovering_from(ts, start, MAX_DEPTH as nat))),
            None => declaration_rejected(ts, start) && start < resume_at(ts, start, start + 1)
                < ts.len() && (recovering_from(ts, resume_at(ts, start, start + 1), MAX_DEPTH as nat) matches Some(
                (r2, m2),
            ) && r2 == vs.subrange(n, vs.len() as int) && m2 + 1 == errors_of(recovering_from(ts, start, MAX_DEPTH as nat))),
        },
{
    let tail = vs.subrange(n, vs.len() as int);
    if let Some((v, j)) = top_at(ts, start, MAX_DEPTH as nat) {
        if let Some((r2, m2)) = recovering_from(ts, j, MAX_DEPTH as nat) {
            assert(tail == seq![v] + r2);
            assert(tail[0] == v);
            assert(r2 =~= tail.subrange(1, tail.len() as int));
            assert(tail.subrange(1, tail.len() as int) =~= vs.subrange(n + 1, vs.len() as int));
        }
    }
}

/// What the tokens fix of a statement depends on the tokens alone.
proof fn lemma_selects_same_tokens(p: &Parser, q: &Parser, i: int, s: Statement)
    requires
        p.tokens@ == q.tokens@,
    ensures
        selects(p, i, s) == selects(q, i, s),
{
}

impl Parser {
    /// Parses statements up to the end of input. A statement that fails to parse is
    /// reported, skipped up to the next statement boundary, and left out. The statements
    /// come in source order, each with what the tokens where it starts fix of it. Where
    /// the input is made of statements that hold no statement and parse without error,
    /// the result is exactly what the grammar gives, and no error is recorded.
    pub fn parse_program(&mut self) -> (r: Vec<Statement>)
        requires
            old(self).wf(),
        ensures
            old(self).follows(final(self)),
            final(self).current_kind() == TokenKind::EOF,
            old(self).current_kind() == TokenKind::EOF ==> r@.len() == 0,
            final(self).errors@.len() == old(self).errors@.len() && old(self).current_kind()
                != TokenKind::EOF ==> r@.len() >= 1 && selects(
                old(self),
                old(self).position as int,
                r@[0],
            ),
            top_statements_from(old(self).tokens@, old(self).position as int, MAX_DEPTH as nat) matches Some(
                vs,
            ) ==> r@.len() == vs.len() && (forall|k: int|
                0 <= k < vs.len() ==> is_top(#[trigger] r@[k], vs[k])) && final(self).errors@
                == old(self).errors@,
            recovering_from(old(self).tokens@, old(self).position as int, MAX_DEPTH as nat) matches Some(
                (vs, n),
            ) ==> r@.len() == vs.len() && (forall|k: int|
                0 <= k < vs.len() ==> is_top(#[trigger] r@[k], vs[k])) && final(self).errors@.len()
                == old(self).errors@.len() + n,
            unterminated_declaration(old(self).tokens@, old(self).position as int, MAX_DEPTH as nat) matches Some(v)
                ==> r@.len() == 1 && is_simple(r@[0], v) && final(self).errors@.len() == old(self).errors@.len() + 1,
            exists|att: Seq<int>, ends: Seq<int>, kept: Seq<bool>, errs: Seq<int>|
                recovery_trace(old(self), final(self), att, ends, kept, errs),
            exists|starts: Seq<int>|
                starts_in_order(
                    old(self),
                    old(self).position as int,
                    final(self).position as int,
                    r@,
                    starts,
                ),
    {
        let ghost ts = self.tokens@;
        let mut statements: Vec<Statement> = Vec::new();
        let ghost mut starts: Seq<int> = Seq::empty();
        let ghost mut att: Seq<int> = Seq::empty();
        let ghost mut ends: Seq<int> = Seq::empty();
        let ghost mut kept: Seq<bool> = Seq::empty();
        let ghost mut errs: Seq<int> = seq![self.errors@.len() as int];
        while !self.at(TokenKind::EOF)
            invariant
                recovery_trace(old(self), self, att, ends, kept, errs),
                self.wf(),
                old(self).follows(self),
                old(self).current_kind() == TokenKind::EOF ==> self.position == old(self).position,
                self.position == old(self).position ==> statements@.len() == 0,
                self.errors@.len() == old(self).errors@.len() && self.position
                    > old(self).position ==> statements@.len() >= 1 && selects(
                    old(self),
                    old(self).position as int,
                    statements@[0],
                ),
                starts_in_order(
                    old(self),
                    old(self).position as int,
                    self.position as int,
                    statements@,
                    starts,
                ),
                top_statements_from(ts, old(self).position as int, MAX_DEPTH as nat) matches Some(
                    vs,
                ) ==> {
                    &&& statements@.len() <= vs.len()
                    &&& top_statements_from(ts, self.position as int, MAX_DEPTH as nat) == Some(
                        vs.subrange(statements@.len() as int, vs.len() as int),
                    )
                    &&& forall|k: int|
                        0 <= k < statements@.len() ==> is_top(#[trigger] statements@[k], vs[k])
                    &&& self.errors@ == old(self).errors@
                },
                ts == old(self).tokens@,
                recovering_from(ts, old(self).position as int, MAX_DEPTH as nat) matches Some(
                    (vs, n),
                ) ==> {
                    &&& statements@.len() <= vs.len()
                    &&& recovering_from(ts, self.position as int, MAX_DEPTH as nat) matches Some(
                        (rest, m),
                    ) && rest == vs.subrange(statements@.len() as int, vs.len() as int)
                        && self.errors@.len() + m == old(self).errors@.len() + n
                    &&& forall|k: int|
                        0 <= k < statements@.len() ==> is_top(#[trigger] statements@[k], vs[k])
                },
                unterminated_declaration(ts, old(self).position as int, MAX_DEPTH as nat) matches Some(v)
                    ==> ((self.position == old(self).position && statements@.len() == 0
                    && self.errors@.len() == old(self).errors@.len()) || (self.current_kind()
                    == TokenKind::EOF && statements@.len() == 1 && is_simple(statements@[0], v)
                    && self.errors@.len() == old(self).errors@.len() + 1)),
            decreases self.tokens@.len() - self.position,
        {
            let ghost start = self.position as int;
            let ghost before = statements@;
            let ghost here = *self;
            let ghost clean = top_statements_from(ts, old(self).position as int, MAX_DEPTH as nat);
            let ghost recov = recovering_from(ts, old(self).position as int, MAX_DEPTH as nat);
            let ghost errs_before = self.errors@.len();
            let r = self.parse_statement(MAX_DEPTH);
            if let Some(s) = r {
                proof {
                    lemma_selects_same_tokens(&here, old(self), start, s);
                }
                statements.push(s);
            }
            proof {
                let e0 = errs;
                att = att.push(start);
                ends = ends.push(self.position as int);
                kept = kept.push(r is Some);
                errs = e0.push(self.errors@.len() as int);
                assert(resumes(&here, start, self.position as int) == resumes(old(self), start, self.position as int));
                assert(recovery_trace(old(self), self, att, ends, kept, errs)) by {
                    assert forall|k: int| 0 <= k < att.len() - 1 implies #[trigger] ends[k] == att[k + 1] by {
                        if k + 1 < att.len() - 1 {
                        }
                    }
                }
                assert(r is Some ==> statements@ == before.push(r->0));
                if let Some(vs) = clean {
                    lemma_clean_step(ts, start, before.len() as int, vs);
                }
                if let Some((vs, n)) = recov {
                    lemma_recover_step(ts, start, before.len() as int, vs);
                }
                if r is Some {
                    starts = starts.push(start);
                }
                assert(starts_in_order(
                    old(self),
                    old(self).position as int,
                    self.position as int,
                    statements@,
                    starts,
                ));
            }
        }
        statements
    }

    /// One statement, with recovery: on failure an error was recorded and the cursor was
    /// moved to the next statement boundary. Either way it moves on by at least one token.
    pub(crate) fn parse_statement(&mut self, depth: u32) -> (r: Option<Statement>)
        requires
            old(self).wf(),
            old(self).current_kind() != TokenKind::EOF,
        ensures
            old(self).step(final(self), r is None),
            final(self).position > old(self).position,
            r matches Some(s) ==> selects(old(self), old(self).position as int, s),
            statement_at(old(self).tokens@, old(self).position as int, depth as nat) matches Some((v, j)) ==> r matches Some(s) && is_simple(s, v)
                && final(self).position == j && final(self).errors@ == old(self).errors@,
            unterminated_declaration(old(self).tokens@, old(self).position as int, depth as nat) matches Some(v) ==> r matches Some(s) && is_simple(s, v)
                && final(self).current_kind() == TokenKind::EOF && final(self).errors@.len() == old(self).errors@.len() + 1,
            r is None ==> final(self).kind_at(final(self).position - 1) == TokenKind::Semicolon
                || final(self).current_kind() == TokenKind::RightBrace || final(self).current_kind()
                == TokenKind::EOF || final(self).position == old(self).position + 1,
            top_at(old(self).tokens@, old(self).position as int, depth as nat) matches Some((v, j)) ==> r matches Some(s) && is_top(s, v)
                && final(self).position == j && final(self).errors@ == old(self).errors@,
            depth > 2 && declaration_rejected(old(self).tokens@, old(self).position as int) ==> r is None
                && final(self).position == resume_at(
                old(self).tokens@,
                old(self).position as int,
                old(self).position + 1,
            ) && final(self).errors@.len() == old(self).errors@.len() + 1,
        decreases depth,
    {
        proof {
            reveal(statement_at);
        }
        let start = self.position;
        let r = if depth == 0 {
            self.too_deep();
            None
        } else {
            self.parse_statement_form(depth - 1)
        };
        if r.is_none() {
            self.synchronize(start);
        }
        r
    }

    /// The production that the current token selects.
    #[verifier::rlimit(100)]
    fn parse_statement_form(&mut self, depth: u32) -> (r: Option<Statement>)
        requires
            old(self).wf(),
            old(self).current_kind() != TokenKind::EOF,
        ensures
            old(self).step(final(self), r is None),
            r is Some ==> final(self).position > old(self).position,
            r matches Some(s) ==> selects(old(self), old(self).position as int, s),
            form_at(old(self).tokens@, old(self).position as int, depth as nat) matches Some((v, j)) ==> r matches Some(s) && is_simple(s, v)
                && final(self).position == j && final(self).errors@ == old(self).errors@,
            unterminated_declaration(old(self).tokens@, old(self).position as int, (depth + 1) as nat) matches Some(v) ==> r matches Some(s) && is_simple(s, v)
                && final(self).current_kind() == TokenKind::EOF && final(self).errors@.len() == old(self).errors@.len() + 1,
            top_form_at(old(self).tokens@, old(self).position as int, depth as nat) matches Some((v, j)) ==> r matches Some(s) && is_top(s, v)
                && final(self).position == j && final(self).errors@ == old(self).errors@,
            depth > 1 && declaration_rejected(old(self).tokens@, old(self).position as int) ==> r is None
                && final(self).position == old(self).position + 1 && final(self).errors@.len()
                == old(self).errors@.len() + 1,
        decreases depth,
    {
        proof {
            reveal(form_at);
            reveal(top_form_at);
        }
        if depth == 0 {
            self.too_deep();
            return None;
        }
        let k = self.kind();
        if k == TokenKind::IntKeyword || k == TokenKind::FloatKeyword || k
            == TokenKind::StringKeyword || k == TokenKind::BoolKeyword || k
            == TokenKind::DictKeyword || (k == TokenKind::Identifier && self.kind_ahead(1)
            == TokenKind::Identifier) {
            return self.parse_variable_declaration(depth - 1);
        }
        match k {
            TokenKind::ConstKeyword => self.parse_const_declaration(depth - 1),
            TokenKind::FunctionKeyword => self.parse_function_declaration(depth - 1),
            TokenKind::ReturnKeyword => self.parse_return_statement(depth - 1),
            TokenKind::IfKeyword => self.parse_if_statement(depth - 1),
            TokenKind::DoKeyword => self.parse_do_while_statement(depth - 1),
            TokenKind::WhileKeyword => self.parse_while_statement(depth - 1),
            TokenKind::ForKeyword => {
                if self.kind_ahead(1) == TokenKind::LeftParen && self.kind_ahead(2)
                    == TokenKind::Identifier && self.kind_ahead(3) == TokenKind::OfKeyword {
                    self.parse_for_of_statement(depth - 1)
                } else {
                    self.parse_for_statement(depth - 1)
                }
            },
            TokenKind::BreakKeyword => {
                let token = self.current_token();
                self.next_token();
                self.skip_if(TokenKind::Semicolon);
                Some(Statement::BreakStatement { token })
            },
            TokenKind::ContinueKeyword => {
                let token = self.current_token();
                self.next_token();
                self.skip_if(TokenKind::Semicolon);
                Some(Statement::ContinueStatement { token })
            },
            TokenKind::EnumKeyword => self.parse_enum_declaration(),
            TokenKind::ObjectKeyword => self.parse_object_declaration(depth - 1),
            TokenKind::ClassKeyword => self.parse_class_declaration(depth - 1),
            TokenKind::InterfaceKeyword => self.parse_interface_declaration(depth - 1),
            TokenKind::ImportKeyword => self.parse_import_declaration(),
            TokenKind::ExportKeyword => self.parse_export_declaration(),
            TokenKind::SwitchKeyword => self.parse_switch_statement(depth - 1),
            TokenKind::LeftBrace => match self.parse_block(depth - 1) {
                Some(body) => Some(Statement::BlockStatement(body)),
                None => None,
            },
            _ => {
                let e = match self.parse_expression(LOWEST, depth - 1) {
                    Some(e) => e,
                    None => return None,
                };
                self.end_statement();
                Some(Statement::Expression(e))
            },
        }
    }

    /// `{ statements }`.
    pub(crate) fn parse_block(&mut self, depth: u32) -> (r: Option<Vec<Statement>>)
        requires
            old(self).wf(),
        ensures
            old(self).step(final(self), r is None),
            r is Some ==> final(self).position > old(self).position,
            block_at(old(self).tokens@, old(self).position as int, depth as nat) matches Some((vs, e))
                ==> r matches Some(b) && simple_list(b@, vs) && final(self).position == e && final(
            self).errors@ == old(self).errors@,
            old(self).current_kind() != TokenKind::LeftBrace ==> r is None,
        decreases depth,
    {
        if depth == 0 {
            self.too_deep();
            return None;
        }
        let ghost ts = self.tokens@;
        let ghost clean = block_at(ts, old(self).position as int, depth as nat) is Some;
        if !self.expect(TokenKind::LeftBrace) {
            return None;
        }
        let ghost mut views: Seq<SimpleStatement> = Seq::empty();
        let mut statements: Vec<Statement> = Vec::new();
        while !self.at(TokenKind::RightBrace) && !self.at(TokenKind::EOF)
            invariant
                self.wf(),
                old(self).follows(self),
                ts == old(self).tokens@,
                self.position > old(self).position,
                depth > 0,
                clean == block_at(ts, old(self).position as int, depth as nat) is Some,
                clean ==> block_at(ts, old(self).position as int, depth as nat) == block_from(
                    ts,
                    self.position as int,
                    depth as nat,
                    views,
                ) && simple_list(statements@, views) && self.errors@ == old(self).errors@,
            decreases self.tokens@.len() - self.position,
        {
            let ghost i = self.position as int;
            proof {
                if clean {
                    lemma_block_step(ts, i, depth as nat, views);
                }
            }
            let r = self.parse_statement(depth - 1);
            if let Some(s) = r {
                proof {
                    if clean {
                        let (v, j) = statement_at(ts, i, (depth - 1) as nat)->0;
                        let old_statements = statements@;
                        let old_views = views;
                        views = views.push(v);
                        assert(simple_list(old_statements.push(s), views)) by {
                            assert forall|k: int| 0 <= k < old_statements.len() + 1 implies is_simple(
                                #[trigger] old_statements.push(s)[k],
                                views[k],
                            ) by {
                                if k < old_statements.len() {
                                    assert(old_statements.push(s)[k] == old_statements[k]);
                                    assert(views[k] == old_views[k]);
                                }
                            }
                        }
                    }
                }
                statements.push(s);
            }
        }
        proof {
            if clean {
                if kind_in(ts, self.position as int) == TokenKind::EOF {
                    lemma_block_eof(ts, self.position as int, depth as nat, views);
                } else {
                    lemma_block_close(ts, self.position as int, depth as nat, views);
                }
            }
        }
        if !self.expect(TokenKind::RightBrace) {
            return None;
        }
        Some(statements)
    }

    /// The statements of a `case` or `default` arm: up to the next `case`, `default` or `}`.
    fn parse_arm(&mut self, depth: u32) -> (r: Option<Vec<Statement>>)
        requires
            old(self).wf(),
        ensures
            old(self).step(final(self), r is None),
            arm_at(old(self).tokens@, old(self).position as int, depth as nat) matches Some((vs, e))
                ==> r matches Some(b) && simple_list(b@, vs) && final(self).position == e && final(
            self).errors@ == old(self).errors@,
        decreases depth,
    {
        if depth == 0 {
            self.too_deep();
            return None;
        }
        let ghost ts = self.tokens@;
        let ghost mut views: Seq<SimpleStatement> = Seq::empty();
        let mut statements: Vec<Statement> = Vec::new();
        while !self.at(TokenKind::CaseKeyword) && !self.at(TokenKind::DefaultKeyword) && !self.at(
            TokenKind::RightBrace,
        ) && !self.at(TokenKind::EOF)
            invariant
                self.wf(),
                old(self).follows(self),
                ts == old(self).tokens@,
                depth > 0,
                arm_at(ts, old(self).position as int, depth as nat) matches Some((vs, e)) ==> (
                arm_from(ts, self.position as int, depth as nat, views) == Some((vs, e))
                    && simple_list(statements@, views) && self.errors@ == old(self).errors@),
            decreases self.tokens@.len() - self.position,
        {
            let ghost i = self.position as int;
            proof {
                if arm_at(ts, old(self).position as int, depth as nat) is Some {
                    lemma_arm_step(ts, i, depth as nat, views);
                }
            }
            let r = self.parse_statement(depth - 1);
            if let Some(s) = r {
                proof {
                    if arm_at(ts, old(self).position as int, depth as nat) is Some {
                        let (v, j) = statement_at(ts, i, (depth - 1) as nat)->0;
                        let old_statements = statements@;
                        let old_views = views;
                        views = views.push(v);
                        assert(simple_list(old_statements.push(s), views)) by {
                            assert forall|k: int| 0 <= k < old_statements.len() + 1 implies is_simple(
                                #[trigger] old_statements.push(s)[k],
                                views[k],
                            ) by {
                                if k < old_statements.len() {
                                    assert(old_statements.push(s)[k] == old_statements[k]);
                                    assert(views[k] == old_views[k]);
                                }
                            }
                        }
                    }
                }
                statements.push(s);
            }
        }
        proof {
            if arm_at(ts, old(self).position as int, depth as nat) is Some {
                lemma_arm_stop(ts, self.position as int, depth as nat, views);
            }
        }
        Some(statements)
    }

    /// `<type> <name> (= <expr>)? ;`, where the type is a built-in type keyword or a user
    /// type name.
    fn parse_variable_declaration(&mut self, depth: u32) -> (r: Option<Statement>)
        requires
            old(self).wf(),
            starts_declaration(old(self), old(self).position as int),
        ensures
            old(self).step(final(self), r is None),
            r is Some ==> final(self).position > old(self).position,
            r matches Some(s) ==> selects(old(self), old(self).position as int, s),
            variable_at(old(self).tokens@, old(self).position as int, depth as nat) matches Some((v, j)) ==> r matches Some(s) && is_simple(s, v)
                && final(self).position == j && final(self).errors@ == old(self).errors@,
            match variable_head_at(old(self).tokens@, old(self).position as int, depth as nat) {
                Some((v, j)) => kind_in(old(self).tokens@, j) != TokenKind::Semicolon ==> (r matches Some(s)
                    && is_simple(s, v) && final(self).position == j && final(self).errors@.len()
                    == old(self).errors@.len() + 1),
                None => true,
            },
            depth > 0 && old(self).kind_at(old(self).position + 1) != TokenKind::Identifier ==> r is None
                && final(self).position == old(self).position + 1 && final(self).errors@.len()
                == old(self).errors@.len() + 1,
        decreases depth,
    {
        if depth == 0 {
            self.too_deep();
            return None;
        }
        let token = self.current_token();
        let declared_type = self.parse_type();
        let name = match self.expect_identifier() {
            Some(n) => n,
            None => return None,
        };
        let mut value = None;
        if self.skip_if(TokenKind::Equals) {
            value = match self.parse_expression(LOWEST, depth - 1) {
                Some(e) => Some(e),
                None => return None,
            };
        }
        self.end_statement();
        Some(Statement::VariableDeclaration { token, name, declared_type, value })
    }

    /// `const <type> <name> = <expr> ;`: the initializer is required.
    fn parse_const_declaration(&mut self, depth: u32) -> (r: Option<Statement>)
        requires
            old(self).wf(),
            old(self).current_kind() == TokenKind::ConstKeyword,
        ensures
            old(self).step(final(self), r is None),
            r is Some ==> final(self).position > old(self).position,
            r matches Some(s) ==> selects(old(self), old(self).position as int, s),
            const_at(old(self).tokens@, old(self).position as int, depth as nat) matches Some((v, j)) ==> r matches Some(s) && is_simple(s, v)
                && final(self).position == j && final(self).errors@ == old(self).errors@,
            !is_type_keyword(old(self).kind_at(old(self).position + 1)) || old(self).kind_at(
                old(self).position + 2,
            ) != TokenKind::Identifier || old(self).kind_at(old(self).position + 3)
                != TokenKind::Equals ==> r is None,
        decreases depth,
    {
        if depth == 0 {
            self.too_deep();
            return None;
        }
        let token = self.current_token();
        self.next_token();
        let k = self.kind();
        if !(k == TokenKind::IntKeyword || k == TokenKind::FloatKeyword || k
            == TokenKind::StringKeyword || k == TokenKind::BoolKeyword || k
            == TokenKind::DictKeyword) {
            self.error_expected("type");
            return None;
        }
        let declared_type = self.parse_type();
        let name = match self.expect_identifier() {
            Some(n) => n,
            None => return None,
        };
        if !self.expect(TokenKind::Equals) {
            return None;
        }
        let value = match self.parse_expression(LOWEST, depth - 1) {
            Some(e) => e,
            None => return None,
        };
        self.end_statement();
        Some(Statement::VariableDeclaration { token, name, declared_type, value: Some(value) })
    }

    /// `( <params> )`: each parameter is `<name> : <type>` or `<type> <name>`.
    pub(crate) fn parse_parameters(&mut self) -> (r: Option<Vec<(String, String)>>)
        requires
            old(self).wf(),
        ensures
            old(self).step(final(self), r is None),
            r is Some ==> final(self).position > old(self).position,
            parameters_at(old(self).tokens@, old(self).position as int) matches Some((ps, e))
                ==> r matches Some(v) && parameter_views(v@) == ps && final(self).position == e
                && final(self).errors@ == old(self).errors@,
    {
        let ghost ts = self.tokens@;
        if !self.expect(TokenKind::LeftParen) {
            return None;
        }
        let mut parameters: Vec<(String, String)> = Vec::new();
        proof {
            assert(parameter_views(parameters@) =~= Seq::<(Seq<char>, Seq<char>)>::empty());
        }
        if self.skip_if(TokenKind::RightParen) {
            return Some(parameters);
        }
        loop
            invariant
                self.wf(),
                old(self).follows(self),
                ts == old(self).tokens@,
                self.position > old(self).position,
                parameters_at(ts, old(self).position as int) matches Some((ps, e)) ==> (
                parameters_from(ts, self.position as int, parameter_views(parameters@)) == Some(
                    (ps, e),
                ) && self.errors@ == old(self).errors@),
            decreases self.tokens@.len() - self.position,
        {
            let ghost before = parameter_views(parameters@);
            let k = self.kind();
            let type_first = k == TokenKind::IntKeyword || k == TokenKind::FloatKeyword || k
                == TokenKind::StringKeyword || k == TokenKind::BoolKeyword || k
                == TokenKind::DictKeyword || (k == TokenKind::Identifier && self.kind_ahead(1)
                == TokenKind::Identifier);
            let parameter = if type_first {
                let ty = self.parse_type();
                let name = match self.expect_identifier() {
                    Some(n) => n,
                    None => return None,
                };
                match ty {
                    Some(ty) => (name, ty),
                    None => return None,
                }
            } else {
                let name = match self.expect_identifier() {
                    Some(n) => n,
                    None => return None,
                };
                if !self.expect(TokenKind::Colon) {
                    return None;
                }
                match self.parse_type() {
                    Some(ty) => (name, ty),
                    None => {
                        self.error_expected("type");
                        return None;
                    },
                }
            };
            let ghost pv = (parameter.0@, parameter.1@);
            parameters.push(parameter);
            proof {
                assert(parameter_views(parameters@) =~= before.push(pv));
            }
            if !self.skip_if(TokenKind::Comma) {
                if self.expect(TokenKind::RightParen) {
                    return Some(parameters);
                }
                return None;
            }
        }
    }

    /// An optional `=> <type>` after a parameter list.
    pub(crate) fn parse_return_type(&mut self) -> (r: Option<Option<String>>)
        requires
            old(self).wf(),
        ensures
            old(self).step(final(self), r is None),
            return_type_at(old(self).tokens@, old(self).position as int) matches Some((rt, e)) ==> r matches Some(
                x,
            ) && optional_text(x) == rt && final(self).position == e && final(self).errors@ == old(self).errors@,
    {
        if !self.skip_if(TokenKind::EqualsGreaterThan) {
            return Some(None);
        }
        match self.parse_type() {
            Some(ty) => Some(Some(ty)),
            None => {
                self.error_expected("type");
                None
            },
        }
    }

    /// `function <name> ( <params> ) (=> <type>)? { <statements> }`.
    fn parse_function_declaration(&mut self, depth: u32) -> (r: Option<Statement>)
        requires
            old(self).wf(),
            old(self).current_kind() == TokenKind::FunctionKeyword,
        ensures
            old(self).step(final(self), r is None),
            r is Some ==> final(self).position > old(self).position,
            r matches Some(s) ==> selects(old(self), old(self).position as int, s),
            function_at(old(self).tokens@, old(self).position as int, depth as nat) matches Some((nm, ps, rt, body, e)) ==> r matches Some(
                Statement::FunctionDeclaration { token: t, name: n, parameters: p, body: b, return_type: rr },
            ) && t == old(self).tokens@[old(self).position as int] && n == nm && parameter_views(p@) == ps && simple_list(b@, body)
                && optional_text(rr) == rt && final(self).position == e && final(self).errors@ == old(self).errors@,
        decreases depth,
    {
        if depth == 0 {
            self.too_deep();
            return None;
        }
        let token = self.current_token();
        self.next_token();
        let name = match self.expect_identifier() {
            Some(n) => n,
            None => return None,
        };
        let parameters = match self.parse_parameters() {
            Some(p) => p,
            None => return None,
        };
        let return_type = match self.parse_return_type() {
            Some(t) => t,
            None => return None,
        };
        let body = match self.parse_block(depth - 1) {
            Some(b) => b,
            None => return None,
        };
        Some(Statement::FunctionDeclaration { token, name, parameters, body, return_type })
    }

    /// `return <expr>? ;`.
    fn parse_return_statement(&mut self, depth: u32) -> (r: Option<Statement>)
        requires
            old(self).wf(),
            old(self).current_kind() == TokenKind::ReturnKeyword,
        ensures
            old(self).step(final(self), r is None),
            r is Some ==> final(self).position > old(self).position,
            r matches Some(s) ==> selects(old(self), old(self).position as int, s),
            return_at(old(self).tokens@, old(self).position as int, depth as nat) matches Some((v, j)) ==> r matches Some(s) && is_simple(s, v)
                && final(self).position == j && final(self).errors@ == old(self).errors@,
        decreases depth,
    {
        if depth == 0 {
            self.too_deep();
            return None;
        }
        let token = self.current_token();
        self.next_token();
        let mut value = None;
        if !self.at(TokenKind::Semicolon) {
            value = match self.parse_expression(LOWEST, depth - 1) {
                Some(e) => Some(e),
                None => return None,
            };
        }
        self.end_statement();
        Some(Statement::ReturnStatement { token, value })
    }

    /// `( <expr> )`.
    fn parse_condition(&mut self, depth: u32) -> (r: Option<crate::ast::Expression>)
        requires
            old(self).wf(),
        ensures
            old(self).step(final(self), r is None),
            condition_at(old(self).tokens@, old(self).position as int, depth as nat) matches Some((c, j))
                ==> r matches Some(x) && expr_view(x) == c && final(self).position == j && final(self).errors@ == old(self).errors@,
        decreases depth,
    {
        if depth == 0 {
            self.too_deep();
            return None;
        }
        if !self.expect(TokenKind::LeftParen) {
            return None;
        }
        let condition = match self.parse_expression(LOWEST, depth - 1) {
            Some(e) => e,
            None => return None,
        };
        if !self.expect(TokenKind::RightParen) {
            return None;
        }
        Some(condition)
    }

    /// `if ( <expr> ) { <statements> } (else (if ... | { <statements> }))?`.
    fn parse_if_statement(&mut self, depth: u32) -> (r: Option<Statement>)
        requires
            old(self).wf(),
            old(self).current_kind() == TokenKind::IfKeyword,
        ensures
            old(self).step(final(self), r is None),
            r is Some ==> final(self).position > old(self).position,
            r matches Some(s) ==> selects(old(self), old(self).position as int, s),
            if_at(old(self).tokens@, old(self).position as int, depth as nat) matches Some((c, tb, eb, e)) ==> r matches Some(
                Statement::IfStatement { token: t, condition: x, then_branch: tbx, else_branch: ebx },
            ) && t == old(self).tokens@[old(self).position as int] && expr_view(x) == c && block_of(*tbx, tb) && else_of(ebx, eb) && final(self).position == e && final(self).errors@ == old(self).errors@,
            if_rejected(old(self).tokens@, old(self).position as int, depth as nat) ==> r is None,
        decreases depth,
    {
        if depth == 0 {
            self.too_deep();
            return None;
        }
        let token = self.current_token();
        self.next_token();
        let condition = match self.parse_condition(depth - 1) {
            Some(c) => c,
            None => return None,
        };
        let then_body = match self.parse_block(depth - 1) {
            Some(b) => b,
            None => return None,
        };
        let mut else_branch = None;
        if self.skip_if(TokenKind::ElseKeyword) {
            if self.at(TokenKind::IfKeyword) {
                else_branch = match self.parse_if_statement(depth - 1) {
                    Some(s) => Some(Box::new(s)),
                    None => return None,
                };
            } else {
                else_branch = match self.parse_block(depth - 1) {
                    Some(b) => Some(Box::new(Statement::BlockStatement(b))),
                    None => return None,
                };
            }
        }
        Some(
            Statement::IfStatement {
                token,
                condition,
                then_branch: Box::new(Statement::BlockStatement(then_body)),
                else_branch,
            },
        )
    }

    /// `do { <statements> } while ( <expr> ) ;`.
    fn parse_do_while_statement(&mut self, depth: u32) -> (r: Option<Statement>)
        requires
            old(self).wf(),
            old(self).current_kind() == TokenKind::DoKeyword,
        ensures
            old(self).step(final(self), r is None),
            r is Some ==> final(self).position > old(self).position,
            r matches Some(s) ==> selects(old(self), old(self).position as int, s),
            do_at(old(self).tokens@, old(self).position as int, depth as nat) matches Some((body, c, e)) ==> r matches Some(
                Statement::DoWhileStatement { token: t, body: bx, condition: x },
            ) && t == old(self).tokens@[old(self).position as int] && expr_view(x) == c && block_of(*bx, body) && final(self).position == e && final(self).errors@ == old(self).errors@,
        decreases depth,
    {
        if depth == 0 {
            self.too_deep();
            return None;
        }
        let token = self.current_token();
        self.next_token();
        let body = match self.parse_block(depth - 1) {
            Some(b) => b,
            None => return None,
        };
        if !self.expect(TokenKind::WhileKeyword) {
            return None;
        }
        let condition = match self.parse_condition(depth - 1) {
            Some(c) => c,
            None => return None,
        };
        self.end_statement();
        Some(
            Statement::DoWhileStatement {
                token,
                body: Box::new(Statement::BlockStatement(body)),
                condition,
            },
        )
    }

    /// `while ( <expr> ) { <statements> }`.
    fn parse_while_statement(&mut self, depth: u32) -> (r: Option<Statement>)
        requires
            old(self).wf(),
            old(self).current_kind() == TokenKind::WhileKeyword,
        ensures
            old(self).step(final(self), r is None),
            r is Some ==> final(self).position > old(self).position,
            r matches Some(s) ==> selects(old(self), old(self).position as int, s),
            while_at(old(self).tokens@, old(self).position as int, depth as nat) matches Some((c, body, e)) ==> r matches Some(
                Statement::WhileStatement { token: t, condition: x, body: bx },
            ) && t == old(self).tokens@[old(self).position as int] && expr_view(x) == c && block_of(*bx, body) && final(self).position == e && final(self).errors@ == old(self).errors@,
        decreases depth,
    {
        if depth == 0 {
            self.too_deep();
            return None;
        }
        let token = self.current_token();
        self.next_token();
        let condition = match self.parse_condition(depth - 1) {
            Some(c) => c,
            None => return None,
        };
        let body = match self.parse_block(depth - 1) {
            Some(b) => b,
            None => return None,
        };
        Some(
            Statement::WhileStatement {
                token,
                condition,
                body: Box::new(Statement::BlockStatement(body)),
            },
        )
    }

    /// `for ( <init>? ; <cond>? ; <incr>? ) { <statements> }`; the initializer is a
    /// variable declaration or an expression statement, and ends in its own `;`.
    #[verifier::rlimit(100)]
    fn parse_for_statement(&mut self, depth: u32) -> (r: Option<Statement>)
        requires
            old(self).wf(),
            old(self).current_kind() == TokenKind::ForKeyword,
            !starts_for_of(old(self), old(self).position as int),
        ensures
            old(self).step(final(self), r is None),
            r is Some ==> final(self).position > old(self).position,
            r matches Some(s) ==> selects(old(self), old(self).position as int, s),
            for_at(old(self).tokens@, old(self).position as int, depth as nat) matches Some(
                (init, cond, incr, body, e),
            ) ==> r matches Some(
                Statement::ForStatement { token: t, initializer: ix, condition: cx, increment: nx, body: bx },
            ) && t == old(self).tokens@[old(self).position as int] && match init {
                Some(v) => ix matches Some(s) && is_simple(*s, v),
                None => ix is None,
            } && optional_view(cx) == cond && optional_view(nx) == incr && block_of(*bx, body)
                && final(self).position == e && final(self).errors@ == old(self).errors@,
            for_rejected(old(self).tokens@, old(self).position as int, depth as nat) ==> r is None,
        decreases depth,
    {
        if depth == 0 {
            self.too_deep();
            return None;
        }
        let token = self.current_token();
        self.next_token();
        if !self.expect(TokenKind::LeftParen) {
            return None;
        }
        let mut initializer = None;
        if !self.skip_if(TokenKind::Semicolon) {
            let k = self.kind();
            let s = if k == TokenKind::IntKeyword || k == TokenKind::FloatKeyword || k
                == TokenKind::StringKeyword || k == TokenKind::BoolKeyword || k
                == TokenKind::DictKeyword || (k == TokenKind::Identifier && self.kind_ahead(1)
                == TokenKind::Identifier) {
                self.parse_variable_declaration(depth - 1)
            } else {
                match self.parse_expression(LOWEST, depth - 1) {
                    Some(e) => {
                        self.end_statement();
                        Some(Statement::Expression(e))
                    },
                    None => None,
                }
            };
            initializer = match s {
                Some(s) => Some(Box::new(s)),
                None => return None,
            };
        }
        let mut condition = None;
        if !self.at(TokenKind::Semicolon) {
            condition = match self.parse_expression(LOWEST, depth - 1) {
                Some(e) => Some(e),
                None => return None,
            };
        }
        if !self.expect(TokenKind::Semicolon) {
            return None;
        }
        let mut increment = None;
        if !self.at(TokenKind::RightParen) {
            increment = match self.parse_expression(LOWEST, depth - 1) {
                Some(e) => Some(e),
                None => return None,
            };
        }
        if !self.expect(TokenKind::RightParen) {
            return None;
        }
        let body = match self.parse_block(depth - 1) {
            Some(b) => b,
            None => return None,
        };
        Some(
            Statement::ForStatement {
                token,
                initializer,
                condition,
                increment,
                body: Box::new(Statement::BlockStatement(body)),
            },
        )
    }

    /// `for ( <name> of <expr> ) { <statements> }`.
    fn parse_for_of_statement(&mut self, depth: u32) -> (r: Option<Statement>)
        requires
            old(self).wf(),
            old(self).current_kind() == TokenKind::ForKeyword,
            starts_for_of(old(self), old(self).position as int),
        ensures
            old(self).step(final(self), r is None),
            r is Some ==> final(self).position > old(self).position,
            r matches Some(s) ==> selects(old(self), old(self).position as int, s),
            for_of_at(old(self).tokens@, old(self).position as int, depth as nat) matches Some((nm, it, body, e)) ==> r matches Some(
                Statement::ForEachStatement { token: t, element_variable: v, iterator: x, body: bx },
            ) && t == old(self).tokens@[old(self).position as int] && v == nm && expr_view(x) == it && block_of(*bx, body) && final(self).position == e && final(self).errors@ == old(self).errors@,
        decreases depth,
    {
        if depth == 0 {
            self.too_deep();
            return None;
        }
        let token = self.current_token();
        self.next_token();
        if !self.expect(TokenKind::LeftParen) {
            return None;
        }
        let element_variable = match self.expect_identifier() {
            Some(n) => n,
            None => return None,
        };
        if !self.expect(TokenKind::OfKeyword) {
            return None;
        }
        let iterator = match self.parse_expression(LOWEST, depth - 1) {
            Some(e) => e,
            None => return None,
        };
        if !self.expect(TokenKind::RightParen) {
            return None;
        }
        let body = match self.parse_block(depth - 1) {
            Some(b) => b,
            None => return None,
        };
        Some(
            Statement::ForEachStatement {
                token,
                element_variable,
                iterator,
                body: Box::new(Statement::BlockStatement(body)),
            },
        )
    }

    /// `switch ( <expr> ) { (case <expr> : <statements>)* (default : <statements>)? }`.
    #[verifier::rlimit(100)]
    fn parse_switch_statement(&mut self, depth: u32) -> (r: Option<Statement>)
        requires
            old(self).wf(),
            old(self).current_kind() == TokenKind::SwitchKeyword,
        ensures
            old(self).step(final(self), r is None),
            r is Some ==> final(self).position > old(self).position,
            r matches Some(s) ==> selects(old(self), old(self).position as int, s),
            switch_at(old(self).tokens@, old(self).position as int, depth as nat) matches Some(
                (subject, cs, df, e),
            ) ==> r matches Some(
                Statement::SwitchStatement { token: t, expression: x, cases: ys, default: dd },
            ) && t == old(self).tokens@[old(self).position as int] && expr_view(x) == subject
                && cases_match(ys@, cs) && default_match(dd, df) && final(self).position == e
                && final(self).errors@ == old(self).errors@,
            switch_rejected(old(self).tokens@, old(self).position as int, depth as nat) ==> r is None,
        decreases depth,
    {
        if depth == 0 {
            self.too_deep();
            return None;
        }
        let ghost ts = self.tokens@;
        let ghost clean = switch_at(ts, old(self).position as int, depth as nat) is Some;
        let token = self.current_token();
        self.next_token();
        let expression = match self.parse_condition(depth - 1) {
            Some(c) => c,
            None => return None,
        };
        if !self.expect(TokenKind::LeftBrace) {
            return None;
        }
        let ghost start = self.position as int;
        let mut cases: Vec<(crate::ast::Expression, Vec<Statement>)> = Vec::new();
        let mut default: Option<Vec<Statement>> = None;
        let ghost mut gcs: Seq<(ExprView, Seq<SimpleStatement>)> = Seq::empty();
        let ghost mut gdf: Option<Seq<SimpleStatement>> = None;
        while !self.at(TokenKind::RightBrace) && !self.at(TokenKind::EOF)
            invariant
                self.wf(),
                old(self).follows(self),
                ts == old(self).tokens@,
                self.position > old(self).position,
                depth > 0,
                clean == switch_at(ts, old(self).position as int, depth as nat) is Some,
                switch_rejected(ts, old(self).position as int, depth as nat) ==> self.position
                    == start && kind_in(ts, start) == TokenKind::CaseKeyword && expression_at(
                    ts,
                    start + 1,
                    0,
                    (depth - 1) as nat,
                ) is None,
                clean ==> cases_match(cases@, gcs) && default_match(default, gdf),
                clean ==> (switch_at(ts, old(self).position as int, depth as nat) matches Some(
                    (subj, cs, df, e),
                ) && switch_from(ts, start, depth as nat, Seq::empty(), None) == Some((cs, df, e))
                    && expr_view(expression) == subj && token == ts[old(self).position as int]),
                clean ==> switch_from(ts, start, depth as nat, Seq::empty(), None) == switch_from(
                    ts,
                    self.position as int,
                    depth as nat,
                    gcs,
                    gdf,
                ) && self.errors@ == old(self).errors@,
            decreases self.tokens@.len() - self.position,
        {
            let ghost i = self.position as int;
            proof {
                if clean {
                    lemma_switch_end(ts, i, depth as nat, gcs, gdf);
                    if kind_in(ts, i) == TokenKind::CaseKeyword {
                        lemma_case_step(ts, i, depth as nat, gcs, gdf);
                    } else if kind_in(ts, i) == TokenKind::DefaultKeyword {
                        lemma_default_step(ts, i, depth as nat, gcs, gdf);
                    }
                }
            }
            if self.skip_if(TokenKind::CaseKeyword) {
                let value = match self.parse_expression(LOWEST, depth - 1) {
                    Some(e) => e,
                    None => return None,
                };
                if !self.expect(TokenKind::Colon) {
                    return None;
                }
                let body = match self.parse_arm(depth - 1) {
                    Some(b) => b,
                    None => return None,
                };
                let ghost old_cases = cases@;
                let ghost old_gcs = gcs;
                cases.push((value, body));
                proof {
                    if clean {
                        if let Some((v, j)) = expression_at(ts, i + 1, 0, (depth - 1) as nat) {
                            if let Some((b, e)) = arm_at(ts, j + 1, (depth - 1) as nat) {
                                gcs = gcs.push((v, b));
                                assert forall|k: int| 0 <= k < cases@.len() implies expr_view(
                                    #[trigger] cases@[k].0,
                                ) == gcs[k].0 && simple_list(cases@[k].1@, gcs[k].1) by {
                                    if k < old_cases.len() {
                                        assert(cases@[k] == old_cases[k]);
                                        assert(gcs[k] == old_gcs[k]);
                                    }
                                }
                            }
                        }
                    }
                }
            } else if self.skip_if(TokenKind::DefaultKeyword) {
                if !self.expect(TokenKind::Colon) {
                    return None;
                }
                default = match self.parse_arm(depth - 1) {
                    Some(b) => Some(b),
                    None => return None,
                };
                proof {
                    if clean {
                        if let Some((b, e)) = arm_at(ts, i + 2, (depth - 1) as nat) {
                            gdf = Some(b);
                        }
                    }
                }
            } else {
                self.error_expected("'case' or 'default'");
                return None;
            }
        }
        proof {
            if clean {
                lemma_switch_end(ts, self.position as int, depth as nat, gcs, gdf);
            }
        }
        if !self.expect(TokenKind::RightBrace) {
            return None;
        }
        Some(Statement::SwitchStatement { token, expression, cases, default })
    }
}

} // verus!
