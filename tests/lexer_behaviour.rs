use langfront::error::LexerError;
use langfront::lexer::Lexer;
use langfront::token::{Token, TokenType};

fn lex(source: &str) -> (Vec<Token>, Vec<LexerError>) {
    let mut lexer = Lexer::new(source);
    lexer.tokenize();
    (lexer.tokens, lexer.errors)
}

fn kinds(source: &str) -> Vec<TokenType> {
    lex(source).0.into_iter().map(|t| t.token_type).collect()
}

#[test]
fn one_plus_one() {
    assert_eq!(
        kinds("1+1"),
        vec![TokenType::Int(1), TokenType::Plus, TokenType::Int(1), TokenType::EOF]
    );
}

#[test]
fn float_is_one_token() {
    let tokens = kinds("1.5");
    assert_eq!(tokens, vec![TokenType::Float("1.5".to_string()), TokenType::EOF]);
    match &tokens[0] {
        TokenType::Float(text) => assert_eq!(text.parse::<f64>().unwrap(), 1.5),
        _ => panic!("Expected a float"),
    }
}

#[test]
fn number_then_member_access() {
    assert_eq!(
        kinds("1.x"),
        vec![
            TokenType::Int(1),
            TokenType::Dot,
            TokenType::Identifier("x".to_string()),
            TokenType::EOF
        ]
    );
}

#[test]
fn empty_source_gives_end_of_input() {
    let (tokens, errors) = lex("");
    assert_eq!(tokens, vec![Token::new(TokenType::EOF, 1, 1)]);
    assert!(errors.is_empty());
}

#[test]
fn garbage_ends_in_end_of_input() {
    let (tokens, errors) = lex("\u{0}\u{7f}#@$~`?\\");
    assert_eq!(tokens.len(), 1);
    assert_eq!(tokens[0].token_type, TokenType::EOF);
    assert_eq!(errors.len(), 9);
    assert_eq!(errors[1].message, "Unexpected character: '\u{7f}'");
    assert_eq!(errors[1].column, 2);
}

#[test]
fn positions_never_go_back() {
    let source = "int a = 1;\n  /* note\n more */ b += \"x\\ny\" // end\n\tc";
    let (tokens, _) = lex(source);
    for pair in tokens.windows(2) {
        assert!((pair[0].line, pair[0].column) <= (pair[1].line, pair[1].column));
    }
    assert_eq!(tokens.last().unwrap().token_type, TokenType::EOF);
}

#[test]
fn positions_are_token_starts() {
    let (tokens, _) = lex("a\n  bb += 3");
    assert_eq!(tokens[0], Token::new(TokenType::Identifier("a".to_string()), 1, 1));
    assert_eq!(tokens[1], Token::new(TokenType::Identifier("bb".to_string()), 2, 3));
    assert_eq!(tokens[2], Token::new(TokenType::PlusEquals, 2, 6));
    assert_eq!(tokens[3], Token::new(TokenType::Int(3), 2, 9));
    assert_eq!(tokens[4], Token::new(TokenType::EOF, 2, 10));
}

#[test]
fn operators_by_maximal_munch() {
    assert_eq!(
        kinds("++ += + -- -= - *= * /= / %= % == => = != ! >= > <= < && || ; , : . ( ) { } [ ]"),
        vec![
            TokenType::PlusPlus,
            TokenType::PlusEquals,
            TokenType::Plus,
            TokenType::MinusMinus,
            TokenType::MinusEquals,
            TokenType::Minus,
            TokenType::StarEquals,
            TokenType::Star,
            TokenType::SlashEquals,
            TokenType::Slash,
            TokenType::PercentEquals,
            TokenType::Percent,
            TokenType::EqualsEquals,
            TokenType::EqualsGreaterThan,
            TokenType::Equals,
            TokenType::NotEquals,
            TokenType::LogicalNot,
            TokenType::GreaterThanEquals,
            TokenType::GreaterThan,
            TokenType::LessThanEquals,
            TokenType::LessThan,
            TokenType::LogicalAnd,
            TokenType::LogicalOr,
            TokenType::Semicolon,
            TokenType::Comma,
            TokenType::Colon,
            TokenType::Dot,
            TokenType::LeftParen,
            TokenType::RightParen,
            TokenType::LeftBrace,
            TokenType::RightBrace,
            TokenType::LeftBracket,
            TokenType::RightBracket,
            TokenType::EOF,
        ]
    );
}

#[test]
fn lone_ampersand_and_bar_are_errors() {
    let (tokens, errors) = lex("a & b | c");
    assert_eq!(tokens.len(), 4);
    assert_eq!(errors.len(), 2);
    assert_eq!(errors[0].message, "Invalid character '&'");
    assert_eq!((errors[0].line, errors[0].column), (1, 3));
    assert_eq!(errors[1].message, "Invalid character '|'");
}

#[test]
fn comments_are_skipped() {
    assert_eq!(
        kinds("a // one\n/* two\nthree */ b /* open"),
        vec![
            TokenType::Identifier("a".to_string()),
            TokenType::Identifier("b".to_string()),
            TokenType::EOF
        ]
    );
    let (tokens, _) = lex("/* x\ny */ z");
    assert_eq!(tokens[0].line, 2);
    assert_eq!(tokens[0].column, 6);
}

#[test]
fn string_escapes() {
    assert_eq!(
        kinds(r#""a\n\t\r\\\"b\q""#),
        vec![TokenType::String("a\n\t\r\\\"b\\q".to_string()), TokenType::EOF]
    );
}

#[test]
fn unterminated_string_is_reported() {
    let (tokens, errors) = lex("x \"abc");
    assert_eq!(
        tokens.into_iter().map(|t| t.token_type).collect::<Vec<_>>(),
        vec![TokenType::Identifier("x".to_string()), TokenType::EOF]
    );
    assert_eq!(errors.len(), 1);
    assert_eq!(errors[0].message, "Unterminated string literal");
    assert_eq!(errors[0].column, 3);
}

#[test]
fn integer_limits() {
    assert_eq!(kinds("2147483647"), vec![TokenType::Int(2147483647), TokenType::EOF]);
    let (tokens, errors) = lex("2147483648");
    assert_eq!(tokens.len(), 1);
    assert_eq!(errors[0].message, "Invalid integer literal");
}

#[test]
fn keywords_and_identifiers() {
    assert_eq!(
        kinds("int float string bool true false const if else do while for of switch case break continue function return enum object dict class extends implements interface public private static import from export default new this"),
        vec![
            TokenType::IntKeyword,
            TokenType::FloatKeyword,
            TokenType::StringKeyword,
            TokenType::BoolKeyword,
            TokenType::TrueKeyword,
            TokenType::FalseKeyword,
            TokenType::ConstKeyword,
            TokenType::IfKeyword,
            TokenType::ElseKeyword,
            TokenType::DoKeyword,
            TokenType::WhileKeyword,
            TokenType::ForKeyword,
            TokenType::OfKeyword,
            TokenType::SwitchKeyword,
            TokenType::CaseKeyword,
            TokenType::BreakKeyword,
            TokenType::ContinueKeyword,
            TokenType::FunctionKeyword,
            TokenType::ReturnKeyword,
            TokenType::EnumKeyword,
            TokenType::ObjectKeyword,
            TokenType::DictKeyword,
            TokenType::ClassKeyword,
            TokenType::ExtendsKeyword,
            TokenType::ImplementsKeyword,
            TokenType::InterfaceKeyword,
            TokenType::PublicKeyword,
            TokenType::PrivateKeyword,
            TokenType::StaticKeyword,
            TokenType::ImportKeyword,
            TokenType::FromKeyword,
            TokenType::ExportKeyword,
            TokenType::DefaultKeyword,
            TokenType::NewKeyword,
            TokenType::ThisKeyword,
            TokenType::EOF,
        ]
    );
    assert_eq!(
        kinds("Interface _x9 intx été"),
        vec![
            TokenType::Identifier("Interface".to_string()),
            TokenType::Identifier("_x9".to_string()),
            TokenType::Identifier("intx".to_string()),
            TokenType::Identifier("été".to_string()),
            TokenType::EOF
        ]
    );
}

#[test]
fn tokenize_starts_over() {
    let mut lexer = Lexer::new("a");
    lexer.tokenize();
    lexer.tokenize();
    assert_eq!(lexer.tokens.len(), 2);
}
