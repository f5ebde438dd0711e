//! Declarations of enums, objects, classes and interfaces, and module imports and exports.
use vstd::prelude::*;

use crate::ast::{ClassMember, ExportSpecifier, ImportSpecifier, InterfaceMember, Statement, Visibility};
use crate::expression::LOWEST;
use crate::parser::Parser;
use crate::grammar::{interface_at, interface_from, is_signature, lemma_interface_close, lemma_interface_step, signatures_match, class_at, class_from, idents_from, lemma_class_close, lemma_class_step, members_match, MemberView, arrow_at, paren_close, member_at, is_member, method_body_at, simple_list, next_in, kind_in, entry_key, lemma_entries_close, lemma_entries_end, lemma_entries_step, object_at, entries_from, property_views, ExprView, expr_view, enum_at, export_at, import_at, is_simple, named_exports, named_imports, names_at, names_from};
use crate::statement::{resumes, selects};
use crate::token::{TokenKind, TokenType};

verus! {

/// A record of the members tried in a class body between `p` and `q`: each try starts at
/// `att` and ends at `ends`; `kept` says which gave a member; `errs` counts the errors
/// before each try and at the end. A try that gave no member recorded at least one error,
/// and parsing resumed just after a `;`, on a `}` or the end of input, or one token further
/// on; the class declaration goes on after it.
pub open spec fn member_trace(
    p: &Parser,
    q: &Parser,
    att: Seq<int>,
    ends: Seq<int>,
    kept: Seq<bool>,
    errs: Seq<int>,
) -> bool {
    &&& att.len() == ends.len() && att.len() == kept.len() && errs.len() == att.len() + 1
    &&& p.errors@.len() <= errs[0] && errs[att.len() as int] <= q.errors@.len()
    &&& forall|k: int| 0 <= k < att.len() ==> #[trigger] att[k] < ends[k]
    &&& forall|k: int| 0 <= k < att.len() - 1 ==> #[trigger] ends[k] <= att[k + 1]
    &&& forall|k: int| 0 <= k < att.len() ==> #[trigger] errs[k] <= errs[k + 1]
    &&& forall|k: int|
        0 <= k < att.len() && !#[trigger] kept[k] ==> errs[k] < errs[k + 1] && resumes(
            p,
            att[k],
            ends[k],
        )
}

impl Parser {
    /// Whether the token `ahead` places after the cursor starts an arrow function.
    fn arrow_ahead(&self, ahead: usize) -> (r: bool)
        requires
            self.wf(),
        ensures
            r == arrow_at(self.tokens@, self.position + ahead),
    {
        if ahead >= self.tokens.len() - self.position {
            return false;
        }
        let j = self.position + ahead;
        if !matches!(self.tokens[j].token_type, TokenType::LeftParen) {
            return false;
        }
        let mut k = j + 1;
        let mut open: usize = 1;
        while k < self.tokens.len()
            invariant
                j < k <= self.tokens@.len(),
                j == self.position + ahead,
                self.kind_at(j as int) == TokenKind::LeftParen,
                1 <= open <= k - j,
                paren_close(self.tokens@, k as int, open as nat) == paren_close(self.tokens@, j + 1, 1),
                self.wf(),
            decreases self.tokens@.len() - k,
        {
            let kind = self.tokens[k].token_type.kind();
            if kind == TokenKind::LeftParen {
                open = open + 1;
            } else if kind == TokenKind::RightParen {
                if open <= 1 {
                    return self.kind_ahead(k + 1 - self.position) == TokenKind::EqualsGreaterThan;
                }
                open = open - 1;
            }
            k = k + 1;
        }
        false
    }

    /// `enum <name> { <name> (, <name>)* }`.
    pub(crate) fn parse_enum_declaration(&mut self) -> (r: Option<Statement>)
        requires
            old(self).wf(),
            old(self).current_kind() == TokenKind::EnumKeyword,
        ensures
            old(self).step(final(self), r is None),
            r is Some ==> final(self).position > old(self).position,
            r matches Some(s) ==> selects(old(self), old(self).position as int, s),
            enum_at(old(self).tokens@, old(self).position as int) matches Some((v, j)) ==> r matches Some(
                s,
            ) && is_simple(s, v) && final(self).position == j && final(self).errors@ == old(self).errors@,
    {
        let token = self.current_token();
        self.next_token();
        let name = match self.expect_identifier() {
            Some(n) => n,
            None => return None,
        };
        let variants = match self.parse_name_list() {
            Some(v) => v,
            None => return None,
        };
        Some(Statement::EnumDeclaration { token, name, variants })
    }

    /// `{ <name> (, <name>)* ,? }`, possibly empty.
    fn parse_name_list(&mut self) -> (r: Option<Vec<String>>)
        requires
            old(self).wf(),
        ensures
            old(self).step(final(self), r is None),
            names_at(old(self).tokens@, old(self).position as int) matches Some((names, j))
                ==> r matches Some(v) && v@ == names && final(self).position == j && final(self).errors@ == old(self).errors@,
    {
        let ghost ts = self.tokens@;
        if !self.expect(TokenKind::LeftBrace) {
            return None;
        }
        let mut names: Vec<String> = Vec::new();
        loop
            invariant
                self.wf(),
                old(self).follows(self),
                ts == old(self).tokens@,
                names_at(ts, old(self).position as int) matches Some((all, j)) ==> names_from(
                    ts,
                    self.position as int,
                    names@,
                ) == Some((all, j)) && self.errors@ == old(self).errors@,
            decreases self.tokens@.len() - self.position,
        {
            if self.skip_if(TokenKind::RightBrace) {
                return Some(names);
            }
            let name = match self.expect_identifier() {
                Some(n) => n,
                None => return None,
            };
            names.push(name);
            if !self.skip_if(TokenKind::Comma) {
                if self.expect(TokenKind::RightBrace) {
                    return Some(names);
                }
                return None;
            }
        }
    }

    /// `object <name>? = { <entries> } ;`, where an entry is `<key> : <expr>` or, as in a
    /// class, `(public|private)? static? <type>? <name> = <expr>`; entries are separated
    /// by `,` or `;`, and a last separator is optional.
    #[verifier::rlimit(100)]
    pub(crate) fn parse_object_declaration(&mut self, depth: u32) -> (r: Option<Statement>)
        requires
            old(self).wf(),
            old(self).current_kind() == TokenKind::ObjectKeyword,
        ensures
            old(self).step(final(self), r is None),
            r is Some ==> final(self).position > old(self).position,
            r matches Some(s) ==> selects(old(self), old(self).position as int, s),
            object_at(old(self).tokens@, old(self).position as int, depth as nat) matches Some(
                (name, properties, j),
            ) ==> r matches Some(
                Statement::ObjectDeclaration { token: t, name: n, properties: ps },
            ) && t == old(self).tokens@[old(self).position as int] && n@ == name
                && property_views(ps@) == properties && final(self).position == j && final(
            self).errors@ == old(self).errors@,
        decreases depth,
    {
        if depth == 0 {
            self.too_deep();
            return None;
        }
        let ghost ts = self.tokens@;
        let token = self.current_token();
        self.next_token();
        let mut name = String::new();
        proof {
            assert(name@ =~= Seq::<char>::empty());
        }
        if self.at(TokenKind::Identifier) {
            name = match self.expect_identifier() {
                Some(n) => n,
                None => return None,
            };
        }
        if !self.expect(TokenKind::Equals) {
            return None;
        }
        if !self.expect(TokenKind::LeftBrace) {
            return None;
        }
        let ghost entries_start = self.position as int;
        let mut properties: Vec<(String, crate::ast::Expression)> = Vec::new();
        proof {
            assert(property_views(properties@) =~= Seq::<(String, ExprView)>::empty());
        }
        loop
            invariant
                self.wf(),
                old(self).follows(self),
                ts == old(self).tokens@,
                self.position > old(self).position,
                depth > 0,
                object_at(ts, old(self).position as int, depth as nat) matches Some((nm, all, e))
                    ==> entries_from(ts, entries_start, depth as nat, Seq::empty()) == entries_from(
                    ts,
                    self.position as int,
                    depth as nat,
                    property_views(properties@),
                ) && self.errors@ == old(self).errors@ && name@ == nm && (entries_from(
                    ts,
                    entries_start,
                    depth as nat,
                    Seq::empty(),
                ) matches Some((a2, e2)) && a2 == all && kind_in(ts, e2) == TokenKind::Semicolon
                    && e == next_in(ts, e2)),
            ensures
                object_at(ts, old(self).position as int, depth as nat) is Some ==> kind_in(
                    ts,
                    self.position as int,
                ) == TokenKind::RightBrace && entries_from(
                    ts,
                    self.position as int,
                    depth as nat,
                    property_views(properties@),
                ) == Some((property_views(properties@), next_in(ts, self.position as int))),
            decreases self.tokens@.len() - self.position,
        {
            let ghost i = self.position as int;
            let ghost before = property_views(properties@);
            let ghost clean = object_at(ts, old(self).position as int, depth as nat) is Some;
            proof {
                if clean {
                    if kind_in(ts, i) == TokenKind::RightBrace || kind_in(ts, i) == TokenKind::EOF {
                        lemma_entries_end(ts, i, depth as nat, before);
                    } else {
                        lemma_entries_step(ts, i, depth as nat, before);
                    }
                }
            }
            if self.at(TokenKind::RightBrace) || self.at(TokenKind::EOF) {
                break;
            }
            if !(self.at(TokenKind::Identifier) && self.kind_ahead(1) == TokenKind::Colon) {
                if !self.skip_if(TokenKind::PublicKeyword) {
                    self.skip_if(TokenKind::PrivateKeyword);
                }
                self.skip_if(TokenKind::StaticKeyword);
                let k = self.kind();
                if k == TokenKind::IntKeyword || k == TokenKind::FloatKeyword || k
                    == TokenKind::StringKeyword || k == TokenKind::BoolKeyword || k
                    == TokenKind::DictKeyword || (k == TokenKind::Identifier && self.kind_ahead(1)
                    == TokenKind::Identifier) {
                    self.parse_type();
                }
            }
            let key = match self.expect_identifier() {
                Some(n) => n,
                None => return None,
            };
            if !self.skip_if(TokenKind::Colon) && !self.expect(TokenKind::Equals) {
                return None;
            }
            let value = match self.parse_expression(LOWEST, depth - 1) {
                Some(e) => e,
                None => return None,
            };
            let ghost pv = (key, expr_view(value));
            properties.push((key, value));
            proof {
                assert(property_views(properties@) =~= before.push(pv));
            }
            if !self.skip_if(TokenKind::Comma) && !self.skip_if(TokenKind::Semicolon) {
                proof {
                    if kind_in(ts, self.position as int) == TokenKind::RightBrace {
                        lemma_entries_close(ts, self.position as int, depth as nat, property_views(properties@));
                    }
                }
                break;
            }
        }
        if !self.expect(TokenKind::RightBrace) {
            return None;
        }
        self.end_statement();
        Some(Statement::ObjectDeclaration { token, name, properties })
    }

    /// `class <name> (extends <name>)? (implements <name> (, <name>)*)? { <members> }`.
    #[verifier::rlimit(100)]
    pub(crate) fn parse_class_declaration(&mut self, depth: u32) -> (r: Option<Statement>)
        requires
            old(self).wf(),
            old(self).current_kind() == TokenKind::ClassKeyword,
        ensures
            old(self).step(final(self), r is None),
            r is Some ==> final(self).position > old(self).position,
            r matches Some(s) ==> selects(old(self), old(self).position as int, s),
            class_at(old(self).tokens@, old(self).position as int, depth as nat) matches Some(
                (nm, sup, ifs, ms, e),
            ) ==> r matches Some(
                Statement::ClassDeclaration {
                    token: t,
                    name: n,
                    superclass: s,
                    interfaces: is,
                    members: m,
                },
            ) && t == old(self).tokens@[old(self).position as int] && n == nm && s == sup && is@
                == ifs && members_match(m@, ms) && final(self).position == e && final(
            self).errors@ == old(self).errors@,
            r is Some ==> exists|att: Seq<int>, ends: Seq<int>, kept: Seq<bool>, errs: Seq<int>|
                member_trace(old(self), final(self), att, ends, kept, errs),
        decreases depth,
    {
        if depth == 0 {
            self.too_deep();
            return None;
        }
        let ghost ts = self.tokens@;
        let ghost clean = class_at(ts, old(self).position as int, depth as nat) is Some;
        let token = self.current_token();
        self.next_token();
        let name = match self.expect_identifier() {
            Some(n) => n,
            None => return None,
        };
        let mut superclass = None;
        if self.skip_if(TokenKind::ExtendsKeyword) {
            superclass = match self.expect_identifier() {
                Some(n) => Some(n),
                None => return None,
            };
        }
        let mut interfaces: Vec<String> = Vec::new();
        if self.skip_if(TokenKind::ImplementsKeyword) {
            let ghost s0 = self.position as int;
            loop
                invariant_except_break
                    clean ==> idents_from(ts, s0, Seq::empty()) == idents_from(
                        ts,
                        self.position as int,
                        interfaces@,
                    ) && self.errors@ == old(self).errors@,
                invariant
                    self.wf(),
                    old(self).follows(self),
                    ts == old(self).tokens@,
                    clean == class_at(ts, old(self).position as int, depth as nat) is Some,
                    clean ==> idents_from(ts, s0, Seq::empty()) is Some,
                ensures
                    self.wf(),
                    old(self).follows(self),
                    clean ==> idents_from(ts, s0, Seq::empty()) == Some(
                        (interfaces@, self.position as int),
                    ) && self.errors@ == old(self).errors@,
                decreases self.tokens@.len() - self.position,
            {
                let n = match self.expect_identifier() {
                    Some(n) => n,
                    None => return None,
                };
                interfaces.push(n);
                if !self.skip_if(TokenKind::Comma) {
                    break;
                }
            }
        }
        if !self.expect(TokenKind::LeftBrace) {
            return None;
        }
        let ghost m0 = self.position as int;
        let mut members: Vec<ClassMember> = Vec::new();
        let mut visibility = Visibility::Public;
        let mut is_static = false;
        let ghost mut att: Seq<int> = Seq::empty();
        let ghost mut ends: Seq<int> = Seq::empty();
        let ghost mut kept: Seq<bool> = Seq::empty();
        let ghost mut errs: Seq<int> = seq![self.errors@.len() as int];
        let ghost mut gms: Seq<MemberView> = Seq::empty();
        while !self.at(TokenKind::RightBrace) && !self.at(TokenKind::EOF)
            invariant
                member_trace(old(self), self, att, ends, kept, errs),
                errs[att.len() as int] == self.errors@.len(),
                att.len() > 0 ==> ends[att.len() - 1] <= self.position,
                self.wf(),
                old(self).follows(self),
                ts == old(self).tokens@,
                self.position > old(self).position,
                depth > 0,
                clean == class_at(ts, old(self).position as int, depth as nat) is Some,
                clean ==> (class_at(ts, old(self).position as int, depth as nat) matches Some(
                    (nm, sup, ifs, ms, e),
                ) && class_from(ts, m0, depth as nat, Visibility::Public, false, Seq::empty())
                    == Some((ms, e)) && nm == name && sup == superclass && ifs == interfaces@
                    && token == ts[old(self).position as int]),
                clean ==> class_from(ts, m0, depth as nat, Visibility::Public, false, Seq::empty())
                    == class_from(ts, self.position as int, depth as nat, visibility, is_static, gms)
                    && members_match(members@, gms) && self.errors@ == old(self).errors@,
            decreases self.tokens@.len() - self.position,
        {
            let ghost i = self.position as int;
            proof {
                if clean {
                    lemma_class_step(ts, i, depth as nat, visibility, is_static, gms);
                }
            }
            let k = self.kind();
            if (k == TokenKind::PublicKeyword || k == TokenKind::PrivateKeyword || k
                == TokenKind::StaticKeyword) && self.kind_ahead(1) == TokenKind::Colon {
                // A block header sets what the members after it default to.
                if k == TokenKind::StaticKeyword {
                    is_static = true;
                } else {
                    visibility = if k == TokenKind::PublicKeyword {
                        Visibility::Public
                    } else {
                        Visibility::Private
                    };
                    is_static = false;
                }
                self.next_token();
                self.next_token();
            } else {
                let start = self.position;
                let ghost old_len = members@.len();
                let ghost here = *self;
                match self.parse_class_member(visibility, is_static, depth - 1) {
                    Some(m) => {
                        proof {
                            if clean {
                                let (v, j) = member_at(
                                    ts,
                                    i,
                                    visibility,
                                    is_static,
                                    (depth - 1) as nat,
                                )->0;
                                let old_members = members@;
                                let old_gms = gms;
                                gms = gms.push(v);
                                assert(members_match(old_members.push(m), gms)) by {
                                    assert forall|q: int|
                                        0 <= q < old_members.len() + 1 implies is_member(
                                        #[trigger] old_members.push(m)[q],
                                        gms[q],
                                    ) by {
                                        if q < old_members.len() {
                                            assert(old_members.push(m)[q] == old_members[q]);
                                            assert(gms[q] == old_gms[q]);
                                        }
                                    }
                                }
                            }
                        }
                        members.push(m);
                    },
                    None => self.synchronize(start),
                }
                proof {
                    let e0 = errs;
                    att = att.push(start as int);
                    ends = ends.push(self.position as int);
                    kept = kept.push(members@.len() > old_len);
                    errs = e0.push(self.errors@.len() as int);
                    assert(member_trace(old(self), self, att, ends, kept, errs));
                }
            }
        }
        proof {
            if clean {
                lemma_class_close(ts, self.position as int, depth as nat, visibility, is_static, gms);
            }
        }
        if !self.expect(TokenKind::RightBrace) {
            return None;
        }
        proof {
            assert(member_trace(old(self), self, att, ends, kept, errs));
        }
        Some(Statement::ClassDeclaration { token, name, superclass, interfaces, members })
    }

    /// One class member, after optional `public`/`private` and `static`, which override
    /// the defaults given:
    /// - `function <name> ( <params> ) (=> <type>)? { <statements> }`, a method;
    /// - `<type>? <name> = ( <params> ) => { <statements> }`, a method whose return type is
    ///   the type written before its name;
    /// - `<type>? <name> (= <expr>)? ;`, a field.
    /// A method may end in `;`, and its body may be just `;` (a signature).
    #[verifier::rlimit(100)]
    pub(crate) fn parse_class_member(
        &mut self,
        default_visibility: Visibility,
        default_static: bool,
        depth: u32,
    ) -> (r: Option<ClassMember>)
        requires
            old(self).wf(),
        ensures
            old(self).step(final(self), r is None),
            r is Some ==> final(self).position > old(self).position,
            member_at(
                old(self).tokens@,
                old(self).position as int,
                default_visibility,
                default_static,
                depth as nat,
            ) matches Some((v, e)) ==> r matches Some(m) && is_member(m, v) && final(self).position
                == e && final(self).errors@ == old(self).errors@,
        decreases depth,
    {
        if depth == 0 {
            self.too_deep();
            return None;
        }
        let visibility = if self.skip_if(TokenKind::PublicKeyword) {
            Visibility::Public
        } else if self.skip_if(TokenKind::PrivateKeyword) {
            Visibility::Private
        } else {
            default_visibility
        };
        let is_static = self.skip_if(TokenKind::StaticKeyword) || default_static;
        let token = self.current_token();
        let mut return_type = None;
        if self.skip_if(TokenKind::FunctionKeyword) {
            let name = match self.expect_identifier() {
                Some(n) => n,
                None => return None,
            };
            let parameters = match self.parse_parameters() {
                Some(p) => p,
                None => return None,
            };
            return_type = match self.parse_return_type() {
                Some(t) => t,
                None => return None,
            };
            let body = match self.parse_method_body(depth - 1) {
                Some(b) => b,
                None => return None,
            };
            return Some(
                ClassMember::Method {
                    token,
                    name,
                    parameters,
                    body,
                    return_type,
                    visibility,
                    is_static,
                },
            );
        }
        let k = self.kind();
        if k == TokenKind::IntKeyword || k == TokenKind::FloatKeyword || k
            == TokenKind::StringKeyword || k == TokenKind::BoolKeyword || k
            == TokenKind::DictKeyword || (k == TokenKind::Identifier && self.kind_ahead(1)
            == TokenKind::Identifier) {
            return_type = self.parse_type();
        }
        let name = match self.expect_identifier() {
            Some(n) => n,
            None => return None,
        };
        if self.at(TokenKind::Equals) && self.arrow_ahead(1) {
            self.next_token();
            let parameters = match self.parse_parameters() {
                Some(p) => p,
                None => return None,
            };
            if !self.expect(TokenKind::EqualsGreaterThan) {
                return None;
            }
            let body = match self.parse_method_body(depth - 1) {
                Some(b) => b,
                None => return None,
            };
            return Some(
                ClassMember::Method {
                    token,
                    name,
                    parameters,
                    body,
                    return_type,
                    visibility,
                    is_static,
                },
            );
        }
        let mut value = None;
        if self.skip_if(TokenKind::Equals) {
            value = match self.parse_expression(LOWEST, depth - 1) {
                Some(e) => Some(e),
                None => return None,
            };
        }
        self.end_statement();
        Some(
            ClassMember::Field {
                token,
                name,
                declared_type: return_type,
                value,
                visibility,
                is_static,
            },
        )
    }

    /// A method body `{ <statements> }` with an optional `;` after it, or a lone `;`.
    fn parse_method_body(&mut self, depth: u32) -> (r: Option<Vec<Statement>>)
        requires
            old(self).wf(),
        ensures
            old(self).step(final(self), r is None),
            method_body_at(old(self).tokens@, old(self).position as int, depth as nat) matches Some(
                (vs, e),
            ) ==> r matches Some(b) && simple_list(b@, vs) && final(self).position == e && final(
            self).errors@ == old(self).errors@,
        decreases depth,
    {
        if depth == 0 {
            self.too_deep();
            return None;
        }
        if self.skip_if(TokenKind::Semicolon) {
            return Some(Vec::new());
        }
        let body = match self.parse_block(depth - 1) {
            Some(b) => b,
            None => return None,
        };
        self.skip_if(TokenKind::Semicolon);
        Some(body)
    }

    /// `interface <name> { <methods> }`: each member is parsed as a class method, and only
    /// its name, parameters and return type are kept; a field is reported.
    #[verifier::rlimit(100)]
    pub(crate) fn parse_interface_declaration(&mut self, depth: u32) -> (r: Option<Statement>)
        requires
            old(self).wf(),
            old(self).current_kind() == TokenKind::InterfaceKeyword,
        ensures
            old(self).step(final(self), r is None),
            r is Some ==> final(self).position > old(self).position,
            r matches Some(s) ==> selects(old(self), old(self).position as int, s),
            interface_at(old(self).tokens@, old(self).position as int, depth as nat) matches Some(
                (nm, ms, e),
            ) ==> r matches Some(Statement::InterfaceDeclaration { token: t, name: n, members: m })
                && t == old(self).tokens@[old(self).position as int] && n == nm
                && signatures_match(m@, ms) && final(self).position == e && final(
            self).errors@ == old(self).errors@,
        decreases depth,
    {
        if depth == 0 {
            self.too_deep();
            return None;
        }
        let ghost ts = self.tokens@;
        let ghost clean = interface_at(ts, old(self).position as int, depth as nat) is Some;
        let token = self.current_token();
        self.next_token();
        let name = match self.expect_identifier() {
            Some(n) => n,
            None => return None,
        };
        if !self.expect(TokenKind::LeftBrace) {
            return None;
        }
        let ghost m0 = self.position as int;
        let ghost mut gms: Seq<MemberView> = Seq::empty();
        let mut members: Vec<InterfaceMember> = Vec::new();
        while !self.at(TokenKind::RightBrace) && !self.at(TokenKind::EOF)
            invariant
                self.wf(),
                old(self).follows(self),
                ts == old(self).tokens@,
                self.position > old(self).position,
                depth > 0,
                clean == interface_at(ts, old(self).position as int, depth as nat) is Some,
                clean ==> (interface_at(ts, old(self).position as int, depth as nat) matches Some(
                    (nm, ms, e),
                ) && interface_from(ts, m0, depth as nat, Seq::empty()) == Some((ms, e)) && nm
                    == name && token == ts[old(self).position as int]),
                clean ==> interface_from(ts, m0, depth as nat, Seq::empty()) == interface_from(
                    ts,
                    self.position as int,
                    depth as nat,
                    gms,
                ) && signatures_match(members@, gms) && self.errors@ == old(self).errors@,
            decreases self.tokens@.len() - self.position,
        {
            let ghost i = self.position as int;
            proof {
                if clean {
                    lemma_interface_step(ts, i, depth as nat, gms);
                }
            }
            let start = self.position;
            let r = self.parse_class_member(Visibility::Public, false, depth - 1);
            match r {
                Some(ClassMember::Method { token, name, parameters, return_type, .. }) => {
                    let member = InterfaceMember::Method { token, name, parameters, return_type };
                    proof {
                        if clean {
                            let (v, j) = member_at(
                                ts,
                                i,
                                Visibility::Public,
                                false,
                                (depth - 1) as nat,
                            )->0;
                            let old_members = members@;
                            let old_gms = gms;
                            gms = gms.push(v);
                            assert(signatures_match(old_members.push(member), gms)) by {
                                assert forall|q: int|
                                    0 <= q < old_members.len() + 1 implies is_signature(
                                    #[trigger] old_members.push(member)[q],
                                    gms[q],
                                ) by {
                                    if q < old_members.len() {
                                        assert(old_members.push(member)[q] == old_members[q]);
                                        assert(gms[q] == old_gms[q]);
                                    }
                                }
                            }
                        }
                    }
                    members.push(member);
                },
                Some(ClassMember::Field { .. }) => {
                    let m = String::from_str("Expected a method in interface, got a field");
                    proof {
                        reveal_strlit("Expected a method in interface, got a field");
                    }
                    self.error_here(m);
                },
                None => self.synchronize(start),
            }
        }
        proof {
            if clean {
                lemma_interface_close(ts, self.position as int, depth as nat, gms);
            }
        }
        if !self.expect(TokenKind::RightBrace) {
            return None;
        }
        Some(Statement::InterfaceDeclaration { token, name, members })
    }

    /// `import { <name> (, <name>)* } from <string> ;` or `import <name> from <string> ;`.
    pub(crate) fn parse_import_declaration(&mut self) -> (r: Option<Statement>)
        requires
            old(self).wf(),
            old(self).current_kind() == TokenKind::ImportKeyword,
        ensures
            old(self).step(final(self), r is None),
            r is Some ==> final(self).position > old(self).position,
            r matches Some(s) ==> selects(old(self), old(self).position as int, s),
            import_at(old(self).tokens@, old(self).position as int) matches Some((v, j)) ==> r matches Some(
                s,
            ) && is_simple(s, v) && final(self).position == j && final(self).errors@ == old(self).errors@,
    {
        let ghost ts = self.tokens@;
        let token = self.current_token();
        self.next_token();
        let mut imports: Vec<ImportSpecifier> = Vec::new();
        if self.at(TokenKind::LeftBrace) {
            let names = match self.parse_name_list() {
                Some(v) => v,
                None => return None,
            };
            let mut i: usize = 0;
            while i < names.len()
                invariant
                    i <= names.len(),
                    imports@ == named_imports(names@.subrange(0, i as int)),
                decreases names.len() - i,
            {
                imports.push(ImportSpecifier::Named(names[i].clone()));
                i = i + 1;
                proof {
                    assert(imports@ =~= named_imports(names@.subrange(0, i as int)));
                }
            }
            proof {
                assert(names@.subrange(0, names@.len() as int) =~= names@);
            }
        } else if self.at(TokenKind::Identifier) {
            let name = match self.expect_identifier() {
                Some(n) => n,
                None => return None,
            };
            imports.push(ImportSpecifier::Default(name));
            proof {
                assert(imports@ =~= seq![ImportSpecifier::Default(name)]);
            }
        } else {
            self.error_expected("'{' or identifier");
            return None;
        }
        if !self.expect(TokenKind::FromKeyword) {
            return None;
        }
        let path = match &self.tokens[self.position].token_type {
            TokenType::String(s) => Some(s.clone()),
            _ => None,
        };
        let path = match path {
            Some(p) => p,
            None => {
                self.error_expected("string literal");
                return None;
            },
        };
        self.next_token();
        self.end_statement();
        Some(Statement::ImportDeclaration { token, path, imports })
    }

    /// `export default ;` or `export { <name> (, <name>)* } ;`.
    pub(crate) fn parse_export_declaration(&mut self) -> (r: Option<Statement>)
        requires
            old(self).wf(),
            old(self).current_kind() == TokenKind::ExportKeyword,
        ensures
            old(self).step(final(self), r is None),
            r is Some ==> final(self).position > old(self).position,
            r matches Some(s) ==> selects(old(self), old(self).position as int, s),
            export_at(old(self).tokens@, old(self).position as int) matches Some((v, j)) ==> r matches Some(
                s,
            ) && is_simple(s, v) && final(self).position == j && final(self).errors@ == old(self).errors@,
    {
        let token = self.current_token();
        self.next_token();
        let mut specifiers: Vec<ExportSpecifier> = Vec::new();
        if self.skip_if(TokenKind::DefaultKeyword) {
            specifiers.push(ExportSpecifier::Default);
            proof {
                assert(specifiers@ =~= seq![ExportSpecifier::Default]);
            }
        } else if self.at(TokenKind::LeftBrace) {
            let names = match self.parse_name_list() {
                Some(v) => v,
                None => return None,
            };
            let mut i: usize = 0;
            while i < names.len()
                invariant
                    i <= names.len(),
                    specifiers@ == named_exports(names@.subrange(0, i as int)),
                decreases names.len() - i,
            {
                specifiers.push(ExportSpecifier::Named(names[i].clone()));
                i = i + 1;
                proof {
                    assert(specifiers@ =~= named_exports(names@.subrange(0, i as int)));
                }
            }
            proof {
                assert(names@.subrange(0, names@.len() as int) =~= names@);
            }
        } else {
            self.error_expected("'default' or '{'");
            return None;
        }
        self.end_statement();
        Some(Statement::ExportDeclaration { token, specifiers })
    }
}

} // verus!
