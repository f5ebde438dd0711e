use langfront::ast::{
    ClassMember, ExportSpecifier, Expression, ImportSpecifier, InterfaceMember, LiteralValue,
    Statement, Visibility,
};
use langfront::lexer::Lexer;
use langfront::parser::Parser;
use langfront::token::TokenType;

fn parse(source: &str) -> (Vec<Statement>, Vec<String>) {
    let mut lexer = Lexer::new(source);
    lexer.tokenize();
    let mut parser = Parser::new(lexer);
    let program = parser.parse_program();
    (program, parser.get_errors().clone())
}

fn int_value(e: &Expression) -> i32 {
    match e {
        Expression::Literal { value: LiteralValue::Int(v), .. } => *v,
        _ => panic!("Expected an integer literal"),
    }
}

#[test]
fn declaration_with_initializer() {
    let (program, errors) = parse("int x = 5;");
    assert!(errors.is_empty());
    assert_eq!(program.len(), 1);
    match &program[0] {
        Statement::VariableDeclaration { name, declared_type, value: Some(value), .. } => {
            assert_eq!(name, "x");
            assert_eq!(declared_type.as_deref(), Some("int"));
            assert_eq!(int_value(value), 5);
        }
        _ => panic!("Expected VariableDeclaration"),
    }
}

#[test]
fn missing_semicolon_is_reported_once() {
    let (program, errors) = parse("int x = 5\n");
    assert_eq!(program.len(), 1);
    assert_eq!(errors.len(), 1);
    assert!(!errors[0].is_empty());
    assert_eq!(errors[0], "Expected ';', got end of input at line 2, column 1");
}

#[test]
fn recovery_reports_each_bad_statement() {
    let (program, errors) = parse("int = 1; ) ; int y = 2; const z = 3;");
    assert_eq!(errors.len(), 3);
    assert_eq!(program.len(), 1);
    assert!(matches!(&program[0], Statement::VariableDeclaration { name, .. } if name == "y"));
}

#[test]
fn stray_closing_brace_is_skipped() {
    let (program, errors) = parse("} int a;");
    assert_eq!(errors.len(), 1);
    assert_eq!(program.len(), 1);
}

#[test]
fn dict_literal_with_two_pairs() {
    let (program, errors) = parse("dict x = { a: 1, b: 2 };");
    assert!(errors.is_empty());
    match &program[0] {
        Statement::VariableDeclaration { value: Some(Expression::DictLiteral { pairs, .. }), .. } => {
            assert_eq!(pairs.len(), 2);
            assert_eq!(int_value(&pairs[1].1), 2);
        }
        _ => panic!("Expected DictLiteral"),
    }
}

#[test]
fn bare_block_is_not_a_dict() {
    let (program, errors) = parse("{ print(1); }");
    assert!(errors.is_empty());
    assert_eq!(program.len(), 1);
    match &program[0] {
        Statement::BlockStatement(statements) => {
            assert_eq!(statements.len(), 1);
            assert!(matches!(&statements[0], Statement::Expression(Expression::FunctionCall { .. })));
        }
        _ => panic!("Expected BlockStatement"),
    }
}

#[test]
fn brace_without_key_in_expression_is_reported() {
    let (program, errors) = parse("x = { 1: 2 };");
    assert!(program.is_empty());
    assert_eq!(errors[0], "Expected dictionary key, got integer literal at line 1, column 7");
    let (program, errors) = parse("x = {};");
    assert!(errors.is_empty());
    assert!(matches!(&program[0],
        Statement::Expression(Expression::Assignment { right, .. })
            if matches!(&**right, Expression::DictLiteral { pairs, .. } if pairs.is_empty())));
}

#[test]
fn precedence_and_associativity() {
    let (program, errors) = parse("a = b = 1 + 2 * 3 - 4;");
    assert!(errors.is_empty());
    let Statement::Expression(Expression::Assignment { right, .. }) = &program[0] else {
        panic!("Expected an assignment");
    };
    let Expression::Assignment { right, .. } = &**right else {
        panic!("Expected a nested assignment");
    };
    let Expression::BinaryOperation { left, operator, right, .. } = &**right else {
        panic!("Expected a subtraction");
    };
    assert_eq!(*operator, TokenType::Minus);
    assert_eq!(int_value(right), 4);
    let Expression::BinaryOperation { left: one, operator, right: product, .. } = &**left else {
        panic!("Expected an addition");
    };
    assert_eq!(*operator, TokenType::Plus);
    assert_eq!(int_value(one), 1);
    assert!(matches!(&**product,
        Expression::BinaryOperation { operator: TokenType::Star, .. }));
}

#[test]
fn prefix_binds_tighter_than_product() {
    let (program, _) = parse("-a * !b.c;");
    let Statement::Expression(Expression::BinaryOperation { left, right, .. }) = &program[0] else {
        panic!("Expected a product");
    };
    assert!(matches!(&**left, Expression::UnaryOperation { operator: TokenType::Minus, .. }));
    let Expression::UnaryOperation { operand, .. } = &**right else {
        panic!("Expected a negation");
    };
    assert!(matches!(&**operand, Expression::MemberAccess { member, .. } if member == "c"));
}

#[test]
fn postfix_chain_composes_left_to_right() {
    let (program, errors) = parse("a.b(c)[d];");
    assert!(errors.is_empty());
    let Statement::Expression(Expression::IndexAccess { array, index, .. }) = &program[0] else {
        panic!("Expected an index access");
    };
    assert!(matches!(&**index, Expression::Identifier { name, .. } if name == "d"));
    let Expression::FunctionCall { callee, arguments, .. } = &**array else {
        panic!("Expected a call");
    };
    assert_eq!(arguments.len(), 1);
    assert!(matches!(&**callee, Expression::MemberAccess { member, .. } if member == "b"));
}

#[test]
fn function_declaration() {
    let (program, errors) = parse("function add(a: int, b: int) => int { return a + b; }");
    assert!(errors.is_empty());
    match &program[0] {
        Statement::FunctionDeclaration { name, parameters, body, return_type, .. } => {
            assert_eq!(name, "add");
            assert_eq!(
                parameters,
                &vec![("a".to_string(), "int".to_string()), ("b".to_string(), "int".to_string())]
            );
            assert_eq!(return_type.as_deref(), Some("int"));
            assert!(matches!(&body[0], Statement::ReturnStatement { value: Some(_), .. }));
        }
        _ => panic!("Expected FunctionDeclaration"),
    }
}

#[test]
fn if_else_if_else() {
    let (program, errors) = parse("if (a) { x; } else if (b) { y; } else { z; }");
    assert!(errors.is_empty());
    let Statement::IfStatement { else_branch: Some(else_branch), .. } = &program[0] else {
        panic!("Expected IfStatement with else");
    };
    let Statement::IfStatement { else_branch: Some(last), .. } = &**else_branch else {
        panic!("Expected a nested if");
    };
    assert!(matches!(&**last, Statement::BlockStatement(s) if s.len() == 1));
}

#[test]
fn loops() {
    let (program, errors) =
        parse("while (i < 3) { i += 1; } do { i -= 1; } while (i > 0); for (int i = 0; i < 3; i = i + 1) { continue; } for (;;) { break; }");
    assert!(errors.is_empty());
    assert_eq!(program.len(), 4);
    assert!(matches!(&program[0], Statement::WhileStatement { .. }));
    assert!(matches!(&program[1], Statement::DoWhileStatement { .. }));
    assert!(matches!(&program[2],
        Statement::ForStatement { initializer: Some(_), condition: Some(_), increment: Some(_), .. }));
    assert!(matches!(&program[3],
        Statement::ForStatement { initializer: None, condition: None, increment: None, .. }));
}

#[test]
fn const_requires_initializer() {
    let (program, errors) = parse("const int a = 1; const int b;");
    assert_eq!(program.len(), 1);
    assert_eq!(errors, vec!["Expected '=', got ';' at line 1, column 29".to_string()]);
}

#[test]
fn interface_keeps_signatures() {
    let (program, errors) =
        parse("interface Shape { function area() => float; function scale(f: float) { } }");
    assert!(errors.is_empty());
    match &program[0] {
        Statement::InterfaceDeclaration { name, members, .. } => {
            assert_eq!(name, "Shape");
            assert_eq!(members.len(), 2);
            let InterfaceMember::Method { name, return_type, .. } = &members[0];
            assert_eq!(name, "area");
            assert_eq!(return_type.as_deref(), Some("float"));
        }
        _ => panic!("Expected InterfaceDeclaration"),
    }
}

#[test]
fn class_header_and_members() {
    let (program, errors) = parse(
        "class Dog extends Animal implements Pet, Named { private static int count = 0; function bark() { } }",
    );
    assert!(errors.is_empty());
    match &program[0] {
        Statement::ClassDeclaration { superclass, interfaces, members, .. } => {
            assert_eq!(superclass.as_deref(), Some("Animal"));
            assert_eq!(interfaces, &vec!["Pet".to_string(), "Named".to_string()]);
            assert!(matches!(&members[0],
                ClassMember::Field { visibility: Visibility::Private, is_static: true, .. }));
            assert!(matches!(&members[1],
                ClassMember::Method { visibility: Visibility::Public, is_static: false, .. }));
        }
        _ => panic!("Expected ClassDeclaration"),
    }
}

#[test]
fn bad_class_member_is_skipped() {
    let (program, errors) = parse("class A { int = 3; int b; }");
    assert_eq!(errors.len(), 1);
    match &program[0] {
        Statement::ClassDeclaration { members, .. } => assert_eq!(members.len(), 1),
        _ => panic!("Expected ClassDeclaration"),
    }
}

#[test]
fn imports_and_exports() {
    let (program, errors) =
        parse("import { a, b } from \"lib/x\"; import c from \"y\"; export default; export { a };");
    assert!(errors.is_empty());
    assert_eq!(program.len(), 4);
    match &program[0] {
        Statement::ImportDeclaration { path, imports, .. } => {
            assert_eq!(path, "lib/x");
            assert_eq!(
                imports,
                &vec![ImportSpecifier::Named("a".to_string()), ImportSpecifier::Named("b".to_string())]
            );
        }
        _ => panic!("Expected ImportDeclaration"),
    }
    assert!(matches!(&program[1],
        Statement::ImportDeclaration { imports, .. }
            if imports == &vec![ImportSpecifier::Default("c".to_string())]));
    assert!(matches!(&program[2],
        Statement::ExportDeclaration { specifiers, .. }
            if specifiers == &vec![ExportSpecifier::Default]));
}

#[test]
fn import_path_must_be_a_string() {
    let (program, errors) = parse("import { limit } from config;");
    assert!(program.is_empty());
    assert_eq!(
        errors,
        vec!["Expected string literal, got identifier at line 1, column 23".to_string()]
    );
}

#[test]
fn literals_keep_their_values() {
    let (program, _) = parse("x = f(1.25, \"s\", true, false, this);");
    let Statement::Expression(Expression::Assignment { right, .. }) = &program[0] else {
        panic!("Expected an assignment");
    };
    let Expression::FunctionCall { arguments, .. } = &**right else {
        panic!("Expected a call");
    };
    assert!(matches!(&arguments[0],
        Expression::Literal { value: LiteralValue::Float(t), .. } if t == "1.25"));
    assert!(matches!(&arguments[1],
        Expression::Literal { value: LiteralValue::String(t), .. } if t == "s"));
    assert!(matches!(&arguments[2], Expression::Literal { value: LiteralValue::Bool(true), .. }));
    assert!(matches!(&arguments[3], Expression::Literal { value: LiteralValue::Bool(false), .. }));
    assert!(matches!(&arguments[4], Expression::This { .. }));
}

#[test]
fn deep_nesting_is_reported() {
    let source = format!("x = {}1{};", "(".repeat(500), ")".repeat(500));
    let (program, errors) = parse(&source);
    assert!(program.is_empty());
    assert!(errors.iter().any(|e| e.starts_with("Nesting too deep at line 1, column ")));
}

#[test]
fn parser_adds_missing_end_of_input() {
    let lexer = Lexer::new("a;");
    let mut parser = Parser::new(lexer);
    assert!(parser.parse_program().is_empty());
    assert!(parser.get_errors().is_empty());
}

#[test]
fn simple_statements_parse_without_errors() {
    let (program, errors) = parse(
        "int a; Point p = origin; const bool b = true; return; return a; a = 1; break; continue enum E { A, B } import { x } from \"m\"; export default;",
    );
    assert!(errors.is_empty());
    assert_eq!(program.len(), 11);
    assert!(matches!(&program[1],
        Statement::VariableDeclaration { declared_type: Some(t), value: Some(Expression::Identifier { name, .. }), .. }
            if t == "Point" && name == "origin"));
    assert!(matches!(&program[2],
        Statement::VariableDeclaration { declared_type: Some(t), .. } if t == "bool"));
    assert!(matches!(&program[3], Statement::ReturnStatement { value: None, .. }));
    assert!(matches!(&program[7], Statement::ContinueStatement { .. }));
    assert!(matches!(&program[8],
        Statement::EnumDeclaration { variants, .. } if variants.len() == 2));
}

#[test]
fn bad_declarations_are_dropped_and_reported() {
    let (program, errors) = parse("int = 1; float = 2; bool y = true;");
    assert_eq!(program.len(), 1);
    assert!(matches!(&program[0],
        Statement::VariableDeclaration { name, declared_type: Some(t), value: Some(Expression::Literal { value: LiteralValue::Bool(true), .. }), .. }
            if name == "y" && t == "bool"));
    assert_eq!(errors.len(), 2);
}

#[test]
fn switch_arms_run_to_the_next_label() {
    let (program, errors) = parse("switch (k) { case 1: a = 1; b = 2; case 2: default: c = 3; }");
    assert!(errors.is_empty());
    let Statement::SwitchStatement { expression, cases, default, .. } = &program[0] else {
        panic!("Expected SwitchStatement");
    };
    assert!(matches!(expression, Expression::Identifier { name, .. } if name == "k"));
    assert_eq!(cases.len(), 2);
    assert_eq!(int_value(&cases[0].0), 1);
    assert_eq!(cases[0].1.len(), 2);
    assert_eq!(int_value(&cases[1].0), 2);
    assert!(cases[1].1.is_empty());
    assert_eq!(default.as_ref().unwrap().len(), 1);
}

#[test]
fn malformed_compound_statements_are_reported() {
    for source in [
        "switch (k) { case ) : a = 1; }",
        "if (a) { } else x = 1;",
        "for (int i = 0; i < ; i += 1) { }",
        "const int x;",
    ] {
        let (_, errors) = parse(source);
        assert!(!errors.is_empty(), "{}", source);
    }
}

#[test]
fn for_clauses_are_kept() {
    let (program, errors) = parse("for (int i = 0; i < 10; i += 1) { print(i); }");
    assert!(errors.is_empty());
    let Statement::ForStatement { initializer: Some(init), condition: Some(cond), increment: Some(incr), body, .. } = &program[0] else {
        panic!("Expected ForStatement");
    };
    assert!(matches!(&**init, Statement::VariableDeclaration { name, .. } if name == "i"));
    assert!(matches!(cond, Expression::BinaryOperation { operator: TokenType::LessThan, .. }));
    assert!(matches!(incr, Expression::Assignment { token, .. } if token.token_type == TokenType::PlusEquals));
    assert!(matches!(&**body, Statement::BlockStatement(s) if s.len() == 1));
}

#[test]
fn else_if_chain_recurses() {
    let (program, errors) = parse("if (a) { x = 1; } else if (b) { x = 2; } else { x = 3; }");
    assert!(errors.is_empty());
    let Statement::IfStatement { condition, then_branch, else_branch: Some(e), .. } = &program[0] else {
        panic!("Expected IfStatement");
    };
    assert!(matches!(condition, Expression::Identifier { name, .. } if name == "a"));
    assert!(matches!(&**then_branch, Statement::BlockStatement(s) if s.len() == 1));
    let Statement::IfStatement { condition, else_branch: Some(last), .. } = &**e else {
        panic!("Expected a nested if");
    };
    assert!(matches!(condition, Expression::Identifier { name, .. } if name == "b"));
    assert!(matches!(&**last, Statement::BlockStatement(s) if s.len() == 1));
}

#[test]
fn malformed_member_is_skipped_and_reported() {
    let (program, errors) = parse("class C { int ; int b; }");
    assert!(!errors.is_empty());
    let Statement::ClassDeclaration { members, .. } = &program[0] else {
        panic!("Expected ClassDeclaration");
    };
    assert_eq!(members.len(), 1);
    assert!(matches!(&members[0],
        ClassMember::Field { name, visibility: Visibility::Public, is_static: false, .. } if name == "b"));
}

#[test]
fn malformed_for_clause_is_reported() {
    let (program, errors) = parse("for (i = ; ; ) { }");
    assert!(program.is_empty());
    assert!(!errors.is_empty());
}
