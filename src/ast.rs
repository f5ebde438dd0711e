//! The syntax tree that the parser builds. Every child node is owned by its parent.
use vstd::prelude::*;

use crate::token::{Token, TokenType};

verus! {

/// The value of a literal. A float keeps the digits as written.
#[derive(Debug, PartialEq)]
pub enum LiteralValue {
    Int(i32),
    Float(String),
    String(String),
    Bool(bool),
}

#[derive(Debug, PartialEq)]
pub enum Statement {
    VariableDeclaration {
        token: Token,
        name: String,
        declared_type: Option<String>,
        value: Option<Expression>,
    },
    FunctionDeclaration {
        token: Token,
        name: String,
        /// (name, type) pairs.
        parameters: Vec<(String, String)>,
        body: Vec<Statement>,
        return_type: Option<String>,
    },
    ReturnStatement { token: Token, value: Option<Expression> },
    Expression(Expression),
    IfStatement {
        token: Token,
        condition: Expression,
        then_branch: Box<Statement>,
        else_branch: Option<Box<Statement>>,
    },
    DoWhileStatement { token: Token, body: Box<Statement>, condition: Expression },
    WhileStatement { token: Token, condition: Expression, body: Box<Statement> },
    ForStatement {
        token: Token,
        initializer: Option<Box<Statement>>,
        condition: Option<Expression>,
        increment: Option<Expression>,
        body: Box<Statement>,
    },
    ForEachStatement {
        token: Token,
        element_variable: String,
        iterator: Expression,
        body: Box<Statement>,
    },
    BreakStatement { token: Token },
    ContinueStatement { token: Token },
    EnumDeclaration { token: Token, name: String, variants: Vec<String> },
    ObjectDeclaration {
        token: Token,
        /// Empty for an anonymous object.
        name: String,
        properties: Vec<(String, Expression)>,
    },
    ClassDeclaration {
        token: Token,
        name: String,
        superclass: Option<String>,
        interfaces: Vec<String>,
        members: Vec<ClassMember>,
    },
    InterfaceDeclaration { token: Token, name: String, members: Vec<InterfaceMember> },
    ImportDeclaration { token: Token, path: String, imports: Vec<ImportSpecifier> },
    ExportDeclaration { token: Token, specifiers: Vec<ExportSpecifier> },
    SwitchStatement {
        token: Token,
        expression: Expression,
        cases: Vec<(Expression, Vec<Statement>)>,
        default: Option<Vec<Statement>>,
    },
    BlockStatement(Vec<Statement>),
}

#[derive(Debug, PartialEq)]
pub enum ClassMember {
    Field {
        token: Token,
        name: String,
        declared_type: Option<String>,
        value: Option<Expression>,
        visibility: Visibility,
        is_static: bool,
    },
    Method {
        token: Token,
        name: String,
        /// (name, type) pairs.
        parameters: Vec<(String, String)>,
        body: Vec<Statement>,
        return_type: Option<String>,
        visibility: Visibility,
        is_static: bool,
    },
}

#[derive(Debug, PartialEq)]
pub enum InterfaceMember {
    Method {
        token: Token,
        name: String,
        /// (name, type) pairs.
        parameters: Vec<(String, String)>,
        return_type: Option<String>,
    },
}

#[derive(Debug, PartialEq)]
pub enum ImportSpecifier {
    Named(String),
    Default(String),
}

#[derive(Debug, PartialEq)]
pub enum ExportSpecifier {
    Named(String),
    Default,
}

#[derive(Debug, Clone, Copy, PartialEq, Eq, Structural)]
pub enum Visibility {
    Public,
    Private,
}

#[derive(Debug, PartialEq)]
pub enum Expression {
    Literal { token: Token, value: LiteralValue },
    Identifier { token: Token, name: String },
    BinaryOperation {
        token: Token,
        left: Box<Expression>,
        operator: TokenType,
        right: Box<Expression>,
    },
    UnaryOperation { token: Token, operator: TokenType, operand: Box<Expression> },
    Assignment { token: Token, left: Box<Expression>, right: Box<Expression> },
    FunctionCall { token: Token, callee: Box<Expression>, arguments: Vec<Expression> },
    ArrayLiteral { token: Token, elements: Vec<Expression> },
    IndexAccess { token: Token, array: Box<Expression>, index: Box<Expression> },
    MemberAccess { token: Token, object: Box<Expression>, member: String },
    Ternary {
        token: Token,
        condition: Box<Expression>,
        then_expression: Box<Expression>,
        else_expression: Box<Expression>,
    },
    DictLiteral {
        token: Token,
        /// Key-value pairs.
        pairs: Vec<(Expression, Expression)>,
    },
    NewExpression { token: Token, class_name: String, arguments: Vec<Expression> },
    This { token: Token },
}

} // verus!
