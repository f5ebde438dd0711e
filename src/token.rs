use vstd::prelude::*;

verus! {
/// The lexical category of a token, with the value that literals and identifiers carry.
///
/// A float literal keeps the digits as written (`"1.5"`): the library does no floating-point
/// arithmetic, and the text is the exact value.
#[derive(Debug, Clone, PartialEq)]
pub enum TokenType {
    Identifier(String),
    Int(i32),
    Float(String),
    String(String),
    IntKeyword,
    FloatKeyword,
    StringKeyword,
    BoolKeyword,
    TrueKeyword,
    FalseKeyword,
    ConstKeyword,
    IfKeyword,
    ElseKeyword,
    DoKeyword,
    WhileKeyword,
    ForKeyword,
    OfKeyword,
    SwitchKeyword,
    CaseKeyword,
    BreakKeyword,
    ContinueKeyword,
    FunctionKeyword,
    ReturnKeyword,
    EnumKeyword,
    ObjectKeyword,
    DictKeyword,
    ClassKeyword,
    ExtendsKeyword,
    ImplementsKeyword,
    InterfaceKeyword,
    PublicKeyword,
    PrivateKeyword,
    StaticKeyword,
    ImportKeyword,
    FromKeyword,
    ExportKeyword,
    DefaultKeyword,
    NewKeyword,
    ThisKeyword,
    Plus,
    Minus,
    Star,
    Slash,
    Percent,
    PlusPlus,
    MinusMinus,
    Equals,
    PlusEquals,
    MinusEquals,
    StarEquals,
    SlashEquals,
    PercentEquals,
    EqualsEquals,
    NotEquals,
    GreaterThan,
    LessThan,
    GreaterThanEquals,
    LessThanEquals,
    LogicalAnd,
    LogicalOr,
    LogicalNot,
    Semicolon,
    Comma,
    Colon,
    Dot,
    LeftParen,
    RightParen,
    LeftBrace,
    RightBrace,
    LeftBracket,
    RightBracket,
    EqualsGreaterThan,
    EOF,
}

/// The category of a token without its payload.
#[derive(Debug, Clone, Copy, PartialEq, Eq, Structural)]
pub enum TokenKind {
    Identifier,
    Int,
    Float,
    String,
    IntKeyword,
    FloatKeyword,
    StringKeyword,
    BoolKeyword,
    TrueKeyword,
    FalseKeyword,
    ConstKeyword,
    IfKeyword,
    ElseKeyword,
    DoKeyword,
    WhileKeyword,
    ForKeyword,
    OfKeyword,
    SwitchKeyword,
    CaseKeyword,
    BreakKeyword,
    ContinueKeyword,
    FunctionKeyword,
    ReturnKeyword,
    EnumKeyword,
    ObjectKeyword,
    DictKeyword,
    ClassKeyword,
    ExtendsKeyword,
    ImplementsKeyword,
    InterfaceKeyword,
    PublicKeyword,
    PrivateKeyword,
    StaticKeyword,
    ImportKeyword,
    FromKeyword,
    ExportKeyword,
    DefaultKeyword,
    NewKeyword,
    ThisKeyword,
    Plus,
    Minus,
    Star,
    Slash,
    Percent,
    PlusPlus,
    MinusMinus,
    Equals,
    PlusEquals,
    MinusEquals,
    StarEquals,
    SlashEquals,
    PercentEquals,
    EqualsEquals,
    NotEquals,
    GreaterThan,
    LessThan,
    GreaterThanEquals,
    LessThanEquals,
    LogicalAnd,
    LogicalOr,
    LogicalNot,
    Semicolon,
    Comma,
    Colon,
    Dot,
    LeftParen,
    RightParen,
    LeftBrace,
    RightBrace,
    LeftBracket,
    RightBracket,
    EqualsGreaterThan,
    EOF,
}

/// The category of `t`, forgetting the value it carries.
pub open spec fn kind_of(t: TokenType) -> TokenKind {
    match t {
        TokenType::Identifier(_) => TokenKind::Identifier,
        TokenType::Int(_) => TokenKind::Int,
        TokenType::Float(_) => TokenKind::Float,
        TokenType::String(_) => TokenKind::String,
        TokenType::IntKeyword => TokenKind::IntKeyword,
        TokenType::FloatKeyword => TokenKind::FloatKeyword,
        TokenType::StringKeyword => TokenKind::StringKeyword,
        TokenType::BoolKeyword => TokenKind::BoolKeyword,
        TokenType::TrueKeyword => TokenKind::TrueKeyword,
        TokenType::FalseKeyword => TokenKind::FalseKeyword,
        TokenType::ConstKeyword => TokenKind::ConstKeyword,
        TokenType::IfKeyword => TokenKind::IfKeyword,
        TokenType::ElseKeyword => TokenKind::ElseKeyword,
        TokenType::DoKeyword => TokenKind::DoKeyword,
        TokenType::WhileKeyword => TokenKind::WhileKeyword,
        TokenType::ForKeyword => TokenKind::ForKeyword,
        TokenType::OfKeyword => TokenKind::OfKeyword,
        TokenType::SwitchKeyword => TokenKind::SwitchKeyword,
        TokenType::CaseKeyword => TokenKind::CaseKeyword,
        TokenType::BreakKeyword => TokenKind::BreakKeyword,
        TokenType::ContinueKeyword => TokenKind::ContinueKeyword,
        TokenType::FunctionKeyword => TokenKind::FunctionKeyword,
        TokenType::ReturnKeyword => TokenKind::ReturnKeyword,
        TokenType::EnumKeyword => TokenKind::EnumKeyword,
        TokenType::ObjectKeyword => TokenKind::ObjectKeyword,
        TokenType::DictKeyword => TokenKind::DictKeyword,
        TokenType::ClassKeyword => TokenKind::ClassKeyword,
        TokenType::ExtendsKeyword => TokenKind::ExtendsKeyword,
        TokenType::ImplementsKeyword => TokenKind::ImplementsKeyword,
        TokenType::InterfaceKeyword => TokenKind::InterfaceKeyword,
        TokenType::PublicKeyword => TokenKind::PublicKeyword,
        TokenType::PrivateKeyword => TokenKind::PrivateKeyword,
        TokenType::StaticKeyword => TokenKind::StaticKeyword,
        TokenType::ImportKeyword => TokenKind::ImportKeyword,
        TokenType::FromKeyword => TokenKind::FromKeyword,
        TokenType::ExportKeyword => TokenKind::ExportKeyword,
        TokenType::DefaultKeyword => TokenKind::DefaultKeyword,
        TokenType::NewKeyword => TokenKind::NewKeyword,
        TokenType::ThisKeyword => TokenKind::ThisKeyword,
        TokenType::Plus => TokenKind::Plus,
        TokenType::Minus => TokenKind::Minus,
        TokenType::Star => TokenKind::Star,
        TokenType::Slash => TokenKind::Slash,
        TokenType::Percent => TokenKind::Percent,
        TokenType::PlusPlus => TokenKind::PlusPlus,
        TokenType::MinusMinus => TokenKind::MinusMinus,
        TokenType::Equals => TokenKind::Equals,
        TokenType::PlusEquals => TokenKind::PlusEquals,
        TokenType::MinusEquals => TokenKind::MinusEquals,
        TokenType::StarEquals => TokenKind::StarEquals,
        TokenType::SlashEquals => TokenKind::SlashEquals,
        TokenType::PercentEquals => TokenKind::PercentEquals,
        TokenType::EqualsEquals => TokenKind::EqualsEquals,
        TokenType::NotEquals => TokenKind::NotEquals,
        TokenType::GreaterThan => TokenKind::GreaterThan,
        TokenType::LessThan => TokenKind::LessThan,
        TokenType::GreaterThanEquals => TokenKind::GreaterThanEquals,
        TokenType::LessThanEquals => TokenKind::LessThanEquals,
        TokenType::LogicalAnd => TokenKind::LogicalAnd,
        TokenType::LogicalOr => TokenKind::LogicalOr,
        TokenType::LogicalNot => TokenKind::LogicalNot,
        TokenType::Semicolon => TokenKind::Semicolon,
        TokenType::Comma => TokenKind::Comma,
        TokenType::Colon => TokenKind::Colon,
        TokenType::Dot => TokenKind::Dot,
        TokenType::LeftParen => TokenKind::LeftParen,
        TokenType::RightParen => TokenKind::RightParen,
        TokenType::LeftBrace => TokenKind::LeftBrace,
        TokenType::RightBrace => TokenKind::RightBrace,
        TokenType::LeftBracket => TokenKind::LeftBracket,
        TokenType::RightBracket => TokenKind::RightBracket,
        TokenType::EqualsGreaterThan => TokenKind::EqualsGreaterThan,
        TokenType::EOF => TokenKind::EOF,
    }
}

impl TokenType {
    /// The category of this token.
    pub fn kind(&self) -> (r: TokenKind)
        ensures
            r == kind_of(*self),
    {
        match self {
            TokenType::Identifier(_) => TokenKind::Identifier,
            TokenType::Int(_) => TokenKind::Int,
            TokenType::Float(_) => TokenKind::Float,
            TokenType::String(_) => TokenKind::String,
            TokenType::IntKeyword => TokenKind::IntKeyword,
            TokenType::FloatKeyword => TokenKind::FloatKeyword,
            TokenType::StringKeyword => TokenKind::StringKeyword,
            TokenType::BoolKeyword => TokenKind::BoolKeyword,
            TokenType::TrueKeyword => TokenKind::TrueKeyword,
            TokenType::FalseKeyword => TokenKind::FalseKeyword,
            TokenType::ConstKeyword => TokenKind::ConstKeyword,
            TokenType::IfKeyword => TokenKind::IfKeyword,
            TokenType::ElseKeyword => TokenKind::ElseKeyword,
            TokenType::DoKeyword => TokenKind::DoKeyword,
            TokenType::WhileKeyword => TokenKind::WhileKeyword,
            TokenType::ForKeyword => TokenKind::ForKeyword,
            TokenType::OfKeyword => TokenKind::OfKeyword,
            TokenType::SwitchKeyword => TokenKind::SwitchKeyword,
            TokenType::CaseKeyword => TokenKind::CaseKeyword,
            TokenType::BreakKeyword => TokenKind::BreakKeyword,
            TokenType::ContinueKeyword => TokenKind::ContinueKeyword,
            TokenType::FunctionKeyword => TokenKind::FunctionKeyword,
            TokenType::ReturnKeyword => TokenKind::ReturnKeyword,
            TokenType::EnumKeyword => TokenKind::EnumKeyword,
            TokenType::ObjectKeyword => TokenKind::ObjectKeyword,
            TokenType::DictKeyword => TokenKind::DictKeyword,
            TokenType::ClassKeyword => TokenKind::ClassKeyword,
            TokenType::ExtendsKeyword => TokenKind::ExtendsKeyword,
            TokenType::ImplementsKeyword => TokenKind::ImplementsKeyword,
            TokenType::InterfaceKeyword => TokenKind::InterfaceKeyword,
            TokenType::PublicKeyword => TokenKind::PublicKeyword,
            TokenType::PrivateKeyword => TokenKind::PrivateKeyword,
            TokenType::StaticKeyword => TokenKind::StaticKeyword,
            TokenType::ImportKeyword => TokenKind::ImportKeyword,
            TokenType::FromKeyword => TokenKind::FromKeyword,
            TokenType::ExportKeyword => TokenKind::ExportKeyword,
            TokenType::DefaultKeyword => TokenKind::DefaultKeyword,
            TokenType::NewKeyword => TokenKind::NewKeyword,
            TokenType::ThisKeyword => TokenKind::ThisKeyword,
            TokenType::Plus => TokenKind::Plus,
            TokenType::Minus => TokenKind::Minus,
            TokenType::Star => TokenKind::Star,
            TokenType::Slash => TokenKind::Slash,
            TokenType::Percent => TokenKind::Percent,
            TokenType::PlusPlus => TokenKind::PlusPlus,
            TokenType::MinusMinus => TokenKind::MinusMinus,
            TokenType::Equals => TokenKind::Equals,
            TokenType::PlusEquals => TokenKind::PlusEquals,
            TokenType::MinusEquals => TokenKind::MinusEquals,
            TokenType::StarEquals => TokenKind::StarEquals,
            TokenType::SlashEquals => TokenKind::SlashEquals,
            TokenType::PercentEquals => TokenKind::PercentEquals,
            TokenType::EqualsEquals => TokenKind::EqualsEquals,
            TokenType::NotEquals => TokenKind::NotEquals,
            TokenType::GreaterThan => TokenKind::GreaterThan,
            TokenType::LessThan => TokenKind::LessThan,
            TokenType::GreaterThanEquals => TokenKind::GreaterThanEquals,
            TokenType::LessThanEquals => TokenKind::LessThanEquals,
            TokenType::LogicalAnd => TokenKind::LogicalAnd,
            TokenType::LogicalOr => TokenKind::LogicalOr,
            TokenType::LogicalNot => TokenKind::LogicalNot,
            TokenType::Semicolon => TokenKind::Semicolon,
            TokenType::Comma => TokenKind::Comma,
            TokenType::Colon => TokenKind::Colon,
            TokenType::Dot => TokenKind::Dot,
            TokenType::LeftParen => TokenKind::LeftParen,
            TokenType::RightParen => TokenKind::RightParen,
            TokenType::LeftBrace => TokenKind::LeftBrace,
            TokenType::RightBrace => TokenKind::RightBrace,
            TokenType::LeftBracket => TokenKind::LeftBracket,
            TokenType::RightBracket => TokenKind::RightBracket,
            TokenType::EqualsGreaterThan => TokenKind::EqualsGreaterThan,
            TokenType::EOF => TokenKind::EOF,
        }
    }

    /// An equal copy of this token type.
    pub fn duplicate(&self) -> (r: TokenType)
        ensures
            r == *self,
    {
        match self {
            TokenType::Identifier(s) => TokenType::Identifier(s.clone()),
            TokenType::Int(v) => TokenType::Int(*v),
            TokenType::Float(s) => TokenType::Float(s.clone()),
            TokenType::String(s) => TokenType::String(s.clone()),
            TokenType::IntKeyword => TokenType::IntKeyword,
            TokenType::FloatKeyword => TokenType::FloatKeyword,
            TokenType::StringKeyword => TokenType::StringKeyword,
            TokenType::BoolKeyword => TokenType::BoolKeyword,
            TokenType::TrueKeyword => TokenType::TrueKeyword,
            TokenType::FalseKeyword => TokenType::FalseKeyword,
            TokenType::ConstKeyword => TokenType::ConstKeyword,
            TokenType::IfKeyword => TokenType::IfKeyword,
            TokenType::ElseKeyword => TokenType::ElseKeyword,
            TokenType::DoKeyword => TokenType::DoKeyword,
            TokenType::WhileKeyword => TokenType::WhileKeyword,
            TokenType::ForKeyword => TokenType::ForKeyword,
            TokenType::OfKeyword => TokenType::OfKeyword,
            TokenType::SwitchKeyword => TokenType::SwitchKeyword,
            TokenType::CaseKeyword => TokenType::CaseKeyword,
            TokenType::BreakKeyword => TokenType::BreakKeyword,
            TokenType::ContinueKeyword => TokenType::ContinueKeyword,
            TokenType::FunctionKeyword => TokenType::FunctionKeyword,
            TokenType::ReturnKeyword => TokenType::ReturnKeyword,
            TokenType::EnumKeyword => TokenType::EnumKeyword,
            TokenType::ObjectKeyword => TokenType::ObjectKeyword,
            TokenType::DictKeyword => TokenType::DictKeyword,
            TokenType::ClassKeyword => TokenType::ClassKeyword,
            TokenType::ExtendsKeyword => TokenType::ExtendsKeyword,
            TokenType::ImplementsKeyword => TokenType::ImplementsKeyword,
            TokenType::InterfaceKeyword => TokenType::InterfaceKeyword,
            TokenType::PublicKeyword => TokenType::PublicKeyword,
            TokenType::PrivateKeyword => TokenType::PrivateKeyword,
            TokenType::StaticKeyword => TokenType::StaticKeyword,
            TokenType::ImportKeyword => TokenType::ImportKeyword,
            TokenType::FromKeyword => TokenType::FromKeyword,
            TokenType::ExportKeyword => TokenType::ExportKeyword,
            TokenType::DefaultKeyword => TokenType::DefaultKeyword,
            TokenType::NewKeyword => TokenType::NewKeyword,
            TokenType::ThisKeyword => TokenType::ThisKeyword,
            TokenType::Plus => TokenType::Plus,
            TokenType::Minus => TokenType::Minus,
            TokenType::Star => TokenType::Star,
            TokenType::Slash => TokenType::Slash,
            TokenType::Percent => TokenType::Percent,
            TokenType::PlusPlus => TokenType::PlusPlus,
            TokenType::MinusMinus => TokenType::MinusMinus,
            TokenType::Equals => TokenType::Equals,
            TokenType::PlusEquals => TokenType::PlusEquals,
            TokenType::MinusEquals => TokenType::MinusEquals,
            TokenType::StarEquals => TokenType::StarEquals,
            TokenType::SlashEquals => TokenType::SlashEquals,
            TokenType::PercentEquals => TokenType::PercentEquals,
            TokenType::EqualsEquals => TokenType::EqualsEquals,
            TokenType::NotEquals => TokenType::NotEquals,
            TokenType::GreaterThan => TokenType::GreaterThan,
            TokenType::LessThan => TokenType::LessThan,
            TokenType::GreaterThanEquals => TokenType::GreaterThanEquals,
            TokenType::LessThanEquals => TokenType::LessThanEquals,
            TokenType::LogicalAnd => TokenType::LogicalAnd,
            TokenType::LogicalOr => TokenType::LogicalOr,
            TokenType::LogicalNot => TokenType::LogicalNot,
            TokenType::Semicolon => TokenType::Semicolon,
            TokenType::Comma => TokenType::Comma,
            TokenType::Colon => TokenType::Colon,
            TokenType::Dot => TokenType::Dot,
            TokenType::LeftParen => TokenType::LeftParen,
            TokenType::RightParen => TokenType::RightParen,
            TokenType::LeftBrace => TokenType::LeftBrace,
            TokenType::RightBrace => TokenType::RightBrace,
            TokenType::LeftBracket => TokenType::LeftBracket,
            TokenType::RightBracket => TokenType::RightBracket,
            TokenType::EqualsGreaterThan => TokenType::EqualsGreaterThan,
            TokenType::EOF => TokenType::EOF,
        }
    }
}

/// How a token of kind `k` is named in a diagnostic.
pub open spec fn kind_text(k: TokenKind) -> Seq<char> {
    match k {
        TokenKind::Identifier => "identifier"@,
        TokenKind::Int => "integer literal"@,
        TokenKind::Float => "float literal"@,
        TokenKind::String => "string literal"@,
        TokenKind::IntKeyword => "'int'"@,
        TokenKind::FloatKeyword => "'float'"@,
        TokenKind::StringKeyword => "'string'"@,
        TokenKind::BoolKeyword => "'bool'"@,
        TokenKind::TrueKeyword => "'true'"@,
        TokenKind::FalseKeyword => "'false'"@,
        TokenKind::ConstKeyword => "'const'"@,
        TokenKind::IfKeyword => "'if'"@,
        TokenKind::ElseKeyword => "'else'"@,
        TokenKind::DoKeyword => "'do'"@,
        TokenKind::WhileKeyword => "'while'"@,
        TokenKind::ForKeyword => "'for'"@,
        TokenKind::OfKeyword => "'of'"@,
        TokenKind::SwitchKeyword => "'switch'"@,
        TokenKind::CaseKeyword => "'case'"@,
        TokenKind::BreakKeyword => "'break'"@,
        TokenKind::ContinueKeyword => "'continue'"@,
        TokenKind::FunctionKeyword => "'function'"@,
        TokenKind::ReturnKeyword => "'return'"@,
        TokenKind::EnumKeyword => "'enum'"@,
        TokenKind::ObjectKeyword => "'object'"@,
        TokenKind::DictKeyword => "'dict'"@,
        TokenKind::ClassKeyword => "'class'"@,
        TokenKind::ExtendsKeyword => "'extends'"@,
        TokenKind::ImplementsKeyword => "'implements'"@,
        TokenKind::InterfaceKeyword => "'interface'"@,
        TokenKind::PublicKeyword => "'public'"@,
        TokenKind::PrivateKeyword => "'private'"@,
        TokenKind::StaticKeyword => "'static'"@,
        TokenKind::ImportKeyword => "'import'"@,
        TokenKind::FromKeyword => "'from'"@,
        TokenKind::ExportKeyword => "'export'"@,
        TokenKind::DefaultKeyword => "'default'"@,
        TokenKind::NewKeyword => "'new'"@,
        TokenKind::ThisKeyword => "'this'"@,
        TokenKind::Plus => "'+'"@,
        TokenKind::Minus => "'-'"@,
        TokenKind::Star => "'*'"@,
        TokenKind::Slash => "'/'"@,
        TokenKind::Percent => "'%'"@,
        TokenKind::PlusPlus => "'++'"@,
        TokenKind::MinusMinus => "'--'"@,
        TokenKind::Equals => "'='"@,
        TokenKind::PlusEquals => "'+='"@,
        TokenKind::MinusEquals => "'-='"@,
        TokenKind::StarEquals => "'*='"@,
        TokenKind::SlashEquals => "'/='"@,
        TokenKind::PercentEquals => "'%='"@,
        TokenKind::EqualsEquals => "'=='"@,
        TokenKind::NotEquals => "'!='"@,
        TokenKind::GreaterThan => "'>'"@,
        TokenKind::LessThan => "'<'"@,
        TokenKind::GreaterThanEquals => "'>='"@,
        TokenKind::LessThanEquals => "'<='"@,
        TokenKind::LogicalAnd => "'&&'"@,
        TokenKind::LogicalOr => "'||'"@,
        TokenKind::LogicalNot => "'!'"@,
        TokenKind::Semicolon => "';'"@,
        TokenKind::Comma => "','"@,
        TokenKind::Colon => "':'"@,
        TokenKind::Dot => "'.'"@,
        TokenKind::LeftParen => "'('"@,
        TokenKind::RightParen => "')'"@,
        TokenKind::LeftBrace => "'{'"@,
        TokenKind::RightBrace => "'}'"@,
        TokenKind::LeftBracket => "'['"@,
        TokenKind::RightBracket => "']'"@,
        TokenKind::EqualsGreaterThan => "'=>'"@,
        TokenKind::EOF => "end of input"@,
    }
}

/// The name of a token kind as diagnostics write it.
pub fn kind_name(k: TokenKind) -> (r: &'static str)
    ensures
        r@ == kind_text(k),
{
    match k {
        TokenKind::Identifier => "identifier",
        TokenKind::Int => "integer literal",
        TokenKind::Float => "float literal",
        TokenKind::String => "string literal",
        TokenKind::IntKeyword => "'int'",
        TokenKind::FloatKeyword => "'float'",
        TokenKind::StringKeyword => "'string'",
        TokenKind::BoolKeyword => "'bool'",
        TokenKind::TrueKeyword => "'true'",
        TokenKind::FalseKeyword => "'false'",
        TokenKind::ConstKeyword => "'const'",
        TokenKind::IfKeyword => "'if'",
        TokenKind::ElseKeyword => "'else'",
        TokenKind::DoKeyword => "'do'",
        TokenKind::WhileKeyword => "'while'",
        TokenKind::ForKeyword => "'for'",
        TokenKind::OfKeyword => "'of'",
        TokenKind::SwitchKeyword => "'switch'",
        TokenKind::CaseKeyword => "'case'",
        TokenKind::BreakKeyword => "'break'",
        TokenKind::ContinueKeyword => "'continue'",
        TokenKind::FunctionKeyword => "'function'",
        TokenKind::ReturnKeyword => "'return'",
        TokenKind::EnumKeyword => "'enum'",
        TokenKind::ObjectKeyword => "'object'",
        TokenKind::DictKeyword => "'dict'",
        TokenKind::ClassKeyword => "'class'",
        TokenKind::ExtendsKeyword => "'extends'",
        TokenKind::ImplementsKeyword => "'implements'",
        TokenKind::InterfaceKeyword => "'interface'",
        TokenKind::PublicKeyword => "'public'",
        TokenKind::PrivateKeyword => "'private'",
        TokenKind::StaticKeyword => "'static'",
        TokenKind::ImportKeyword => "'import'",
        TokenKind::FromKeyword => "'from'",
        TokenKind::ExportKeyword => "'export'",
        TokenKind::DefaultKeyword => "'default'",
        TokenKind::NewKeyword => "'new'",
        TokenKind::ThisKeyword => "'this'",
        TokenKind::Plus => "'+'",
        TokenKind::Minus => "'-'",
        TokenKind::Star => "'*'",
        TokenKind::Slash => "'/'",
        TokenKind::Percent => "'%'",
        TokenKind::PlusPlus => "'++'",
        TokenKind::MinusMinus => "'--'",
        TokenKind::Equals => "'='",
        TokenKind::PlusEquals => "'+='",
        TokenKind::MinusEquals => "'-='",
        TokenKind::StarEquals => "'*='",
        TokenKind::SlashEquals => "'/='",
        TokenKind::PercentEquals => "'%='",
        TokenKind::EqualsEquals => "'=='",
        TokenKind::NotEquals => "'!='",
        TokenKind::GreaterThan => "'>'",
        TokenKind::LessThan => "'<'",
        TokenKind::GreaterThanEquals => "'>='",
        TokenKind::LessThanEquals => "'<='",
        TokenKind::LogicalAnd => "'&&'",
        TokenKind::LogicalOr => "'||'",
        TokenKind::LogicalNot => "'!'",
        TokenKind::Semicolon => "';'",
        TokenKind::Comma => "','",
        TokenKind::Colon => "':'",
        TokenKind::Dot => "'.'",
        TokenKind::LeftParen => "'('",
        TokenKind::RightParen => "')'",
        TokenKind::LeftBrace => "'{'",
        TokenKind::RightBrace => "'}'",
        TokenKind::LeftBracket => "'['",
        TokenKind::RightBracket => "']'",
        TokenKind::EqualsGreaterThan => "'=>'",
        TokenKind::EOF => "end of input",
    }
}

/// What a token states, as plain values: its kind, the text that an identifier, a float
/// literal or a string literal carries (empty for the others), the value of an integer
/// literal (0 for the others), and its position.
pub struct TokenView {
    pub kind: TokenKind,
    pub text: Seq<char>,
    pub value: i32,
    pub line: int,
    pub column: int,
}

/// The text carried by a token type.
pub open spec fn text_of(t: TokenType) -> Seq<char> {
    match t {
        TokenType::Identifier(s) => s@,
        TokenType::Float(s) => s@,
        TokenType::String(s) => s@,
        _ => Seq::empty(),
    }
}

/// The integer carried by a token type.
pub open spec fn value_of(t: TokenType) -> i32 {
    match t {
        TokenType::Int(v) => v,
        _ => 0,
    }
}

/// A token with the 1-based line and column of its first character.
#[derive(Debug, Clone, PartialEq)]
pub struct Token {
    pub token_type: TokenType,
    pub line: usize,
    pub column: usize,
}

impl View for Token {
    type V = TokenView;

    open spec fn view(&self) -> TokenView {
        TokenView {
            kind: kind_of(self.token_type),
            text: text_of(self.token_type),
            value: value_of(self.token_type),
            line: self.line as int,
            column: self.column as int,
        }
    }
}

impl Token {
    pub fn new(token_type: TokenType, line: usize, column: usize) -> (r: Token)
        ensures
            r == (Token { token_type, line, column }),
    {
        Token { token_type, line, column }
    }

    /// An equal copy of this token.
    pub fn duplicate(&self) -> (r: Token)
        ensures
            r == *self,
    {
        Token { token_type: self.token_type.duplicate(), line: self.line, column: self.column }
    }
}

} // verus!
