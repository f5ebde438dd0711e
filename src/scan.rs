//! What the scanner does at one position of the source: the lexical grammar, stated as
//! spec functions over the characters, and the executable scanner proved against it.
use vstd::prelude::*;

use crate::token::{kind_of, text_of, value_of, TokenKind, TokenType};

verus! {

/// Whether `c` has Unicode's Alphabetic property.
pub uninterp spec fn alphabetic(c: char) -> bool;

/// Relies on `char::is_alphabetic`: true exactly when `c` has the Alphabetic property,
/// which depends on `c` alone.
#[verifier::external_body]
fn is_alphabetic(c: char) -> (r: bool)
    ensures
        r == alphabetic(c),
{
    c.is_alphabetic()
}

/// Relies on `String::push`: appends one character at the end.
#[verifier::external_body]
pub(crate) fn push_char(s: &mut String, c: char)
    ensures
        final(s)@ == old(s)@.push(c),
{
    s.push(c);
}

pub open spec fn is_digit(c: char) -> bool {
    '0' <= c && c <= '9'
}

/// A character that may start an identifier.
pub open spec fn ident_start(c: char) -> bool {
    alphabetic(c) || c == '_'
}

/// A character that may continue an identifier.
pub open spec fn ident_char(c: char) -> bool {
    alphabetic(c) || is_digit(c) || c == '_'
}

/// The character after position `i`, or NUL past the end (NUL starts no operator).
pub open spec fn next_char(s: Seq<char>, i: int) -> char {
    if i + 1 < s.len() {
        s[i + 1]
    } else {
        '\0'
    }
}

/// The end of the run of decimal digits that starts at `j`.
pub open spec fn digits_end(s: Seq<char>, j: int) -> int
    decreases s.len() - j,
{
    if 0 <= j < s.len() && is_digit(s[j]) {
        digits_end(s, j + 1)
    } else {
        j
    }
}

/// The end of the run of identifier characters that starts at `j`.
pub open spec fn ident_end(s: Seq<char>, j: int) -> int
    decreases s.len() - j,
{
    if 0 <= j < s.len() && ident_char(s[j]) {
        ident_end(s, j + 1)
    } else {
        j
    }
}

/// The position of the first newline at or after `j`, or the end of the source.
pub open spec fn line_end(s: Seq<char>, j: int) -> int
    decreases s.len() - j,
{
    if 0 <= j < s.len() && s[j] != '\n' {
        line_end(s, j + 1)
    } else {
        j
    }
}

/// Where a block comment whose body starts at `j` ends: just after the first `*/`, or at
/// the end of the source when it is never closed.
pub open spec fn block_end(s: Seq<char>, j: int) -> int
    decreases s.len() - j,
{
    if 0 <= j && j + 1 < s.len() {
        if s[j] == '*' && s[j + 1] == '/' {
            j + 2
        } else {
            block_end(s, j + 1)
        }
    } else {
        s.len() as int
    }
}

/// The position of the quote that closes a string literal whose contents start at `j`; a
/// backslash takes the character after it into the contents.
pub open spec fn string_close(s: Seq<char>, j: int) -> Option<int>
    decreases s.len() - j,
{
    if 0 <= j < s.len() {
        if s[j] == '"' {
            Some(j)
        } else if s[j] == '\\' {
            if j + 1 < s.len() {
                string_close(s, j + 2)
            } else {
                None
            }
        } else {
            string_close(s, j + 1)
        }
    } else {
        None
    }
}

/// The character that the escape `\e` stands for, when `e` is a recognised escape.
pub open spec fn escaped(e: char) -> Option<char> {
    if e == 'n' {
        Some('\n')
    } else if e == 't' {
        Some('\t')
    } else if e == 'r' {
        Some('\r')
    } else if e == '\\' {
        Some('\\')
    } else if e == '"' {
        Some('"')
    } else {
        None
    }
}

/// The value of the contents of a string literal: recognised escapes are replaced, an
/// unrecognised escape `\x` stays as the two characters.
pub open spec fn unescape(t: Seq<char>) -> Seq<char>
    decreases t.len(),
{
    if t.len() == 0 {
        Seq::empty()
    } else if t[0] == '\\' && t.len() >= 2 {
        match escaped(t[1]) {
            Some(e) => seq![e] + unescape(t.subrange(2, t.len() as int)),
            None => seq![t[0], t[1]] + unescape(t.subrange(2, t.len() as int)),
        }
    } else {
        seq![t[0]] + unescape(t.subrange(1, t.len() as int))
    }
}

/// The value of a string of decimal digits.
pub open spec fn decimal(w: Seq<char>) -> nat
    decreases w.len(),
{
    if w.len() == 0 {
        0
    } else {
        (decimal(w.drop_last()) * 10 + (w.last() as nat - '0' as nat)) as nat
    }
}

/// The keyword that the word `w` spells, if any.
pub open spec fn keyword(w: Seq<char>) -> Option<TokenKind> {
    if w == "int"@ {
        Some(TokenKind::IntKeyword)
    } else if w == "float"@ {
        Some(TokenKind::FloatKeyword)
    } else if w == "string"@ {
        Some(TokenKind::StringKeyword)
    } else if w == "bool"@ {
        Some(TokenKind::BoolKeyword)
    } else if w == "true"@ {
        Some(TokenKind::TrueKeyword)
    } else if w == "false"@ {
        Some(TokenKind::FalseKeyword)
    } else if w == "const"@ {
        Some(TokenKind::ConstKeyword)
    } else if w == "if"@ {
        Some(TokenKind::IfKeyword)
    } else if w == "else"@ {
        Some(TokenKind::ElseKeyword)
    } else if w == "do"@ {
        Some(TokenKind::DoKeyword)
    } else if w == "while"@ {
        Some(TokenKind::WhileKeyword)
    } else if w == "for"@ {
        Some(TokenKind::ForKeyword)
    } else if w == "of"@ {
        Some(TokenKind::OfKeyword)
    } else if w == "switch"@ {
        Some(TokenKind::SwitchKeyword)
    } else if w == "case"@ {
        Some(TokenKind::CaseKeyword)
    } else if w == "break"@ {
        Some(TokenKind::BreakKeyword)
    } else if w == "continue"@ {
        Some(TokenKind::ContinueKeyword)
    } else if w == "function"@ {
        Some(TokenKind::FunctionKeyword)
    } else if w == "return"@ {
        Some(TokenKind::ReturnKeyword)
    } else if w == "enum"@ {
        Some(TokenKind::EnumKeyword)
    } else if w == "object"@ {
        Some(TokenKind::ObjectKeyword)
    } else if w == "dict"@ {
        Some(TokenKind::DictKeyword)
    } else if w == "class"@ {
        Some(TokenKind::ClassKeyword)
    } else if w == "extends"@ {
        Some(TokenKind::ExtendsKeyword)
    } else if w == "implements"@ {
        Some(TokenKind::ImplementsKeyword)
    } else if w == "interface"@ {
        Some(TokenKind::InterfaceKeyword)
    } else if w == "public"@ {
        Some(TokenKind::PublicKeyword)
    } else if w == "private"@ {
        Some(TokenKind::PrivateKeyword)
    } else if w == "static"@ {
        Some(TokenKind::StaticKeyword)
    } else if w == "import"@ {
        Some(TokenKind::ImportKeyword)
    } else if w == "from"@ {
        Some(TokenKind::FromKeyword)
    } else if w == "export"@ {
        Some(TokenKind::ExportKeyword)
    } else if w == "default"@ {
        Some(TokenKind::DefaultKeyword)
    } else if w == "new"@ {
        Some(TokenKind::NewKeyword)
    } else if w == "this"@ {
        Some(TokenKind::ThisKeyword)
    } else {
        None
    }
}

/// The operator or punctuation token at position `i` and its length, by maximal munch
/// with one character of lookahead.
pub open spec fn operator_at(s: Seq<char>, i: int) -> Option<(TokenKind, int)> {
    let c = s[i];
    let n = next_char(s, i);
    if c == '+' {
        if n == '+' {
            Some((TokenKind::PlusPlus, 2))
        } else if n == '=' {
            Some((TokenKind::PlusEquals, 2))
        } else {
            Some((TokenKind::Plus, 1))
        }
    } else if c == '-' {
        if n == '-' {
            Some((TokenKind::MinusMinus, 2))
        } else if n == '=' {
            Some((TokenKind::MinusEquals, 2))
        } else {
            Some((TokenKind::Minus, 1))
        }
    } else if c == '*' {
        if n == '=' { Some((TokenKind::StarEquals, 2)) } else { Some((TokenKind::Star, 1)) }
    } else if c == '/' {
        if n == '=' { Some((TokenKind::SlashEquals, 2)) } else { Some((TokenKind::Slash, 1)) }
    } else if c == '%' {
        if n == '=' { Some((TokenKind::PercentEquals, 2)) } else { Some((TokenKind::Percent, 1)) }
    } else if c == '=' {
        if n == '=' {
            Some((TokenKind::EqualsEquals, 2))
        } else if n == '>' {
            Some((TokenKind::EqualsGreaterThan, 2))
        } else {
            Some((TokenKind::Equals, 1))
        }
    } else if c == '!' {
        if n == '=' { Some((TokenKind::NotEquals, 2)) } else { Some((TokenKind::LogicalNot, 1)) }
    } else if c == '>' {
        if n == '=' {
            Some((TokenKind::GreaterThanEquals, 2))
        } else {
            Some((TokenKind::GreaterThan, 1))
        }
    } else if c == '<' {
        if n == '=' { Some((TokenKind::LessThanEquals, 2)) } else { Some((TokenKind::LessThan, 1)) }
    } else if c == '&' && n == '&' {
        Some((TokenKind::LogicalAnd, 2))
    } else if c == '|' && n == '|' {
        Some((TokenKind::LogicalOr, 2))
    } else if c == ';' {
        Some((TokenKind::Semicolon, 1))
    } else if c == ',' {
        Some((TokenKind::Comma, 1))
    } else if c == ':' {
        Some((TokenKind::Colon, 1))
    } else if c == '.' {
        Some((TokenKind::Dot, 1))
    } else if c == '(' {
        Some((TokenKind::LeftParen, 1))
    } else if c == ')' {
        Some((TokenKind::RightParen, 1))
    } else if c == '{' {
        Some((TokenKind::LeftBrace, 1))
    } else if c == '}' {
        Some((TokenKind::RightBrace, 1))
    } else if c == '[' {
        Some((TokenKind::LeftBracket, 1))
    } else if c == ']' {
        Some((TokenKind::RightBracket, 1))
    } else {
        None
    }
}

/// What the scanner does at one position: skip `len` characters, emit a token made of
/// the next `len` characters, or report an error and skip `len` characters.
pub enum Scan {
    Skip { len: int },
    Emit { kind: TokenKind, text: Seq<char>, value: i32, len: int },
    Fail { message: Seq<char>, len: int },
}

pub open spec fn emit(kind: TokenKind, len: int) -> Scan {
    Scan::Emit { kind, text: Seq::empty(), value: 0, len }
}

/// A string literal that opens at `i`.
pub open spec fn scan_string(s: Seq<char>, i: int) -> Scan {
    match string_close(s, i + 1) {
        Some(q) => Scan::Emit {
            kind: TokenKind::String,
            text: unescape(s.subrange(i + 1, q)),
            value: 0,
            len: q + 1 - i,
        },
        None => Scan::Fail { message: "Unterminated string literal"@, len: s.len() - i },
    }
}

/// A number literal that starts at `i`: a float when the digits go on with a dot and a
/// digit, else an integer, which must fit in an `i32`.
pub open spec fn scan_number(s: Seq<char>, i: int) -> Scan {
    let d = digits_end(s, i);
    if d + 1 < s.len() && s[d] == '.' && is_digit(s[d + 1]) {
        let e = digits_end(s, d + 1);
        Scan::Emit { kind: TokenKind::Float, text: s.subrange(i, e), value: 0, len: e - i }
    } else if decimal(s.subrange(i, d)) <= i32::MAX {
        Scan::Emit {
            kind: TokenKind::Int,
            text: Seq::empty(),
            value: decimal(s.subrange(i, d)) as i32,
            len: d - i,
        }
    } else {
        Scan::Fail { message: "Invalid integer literal"@, len: d - i }
    }
}

/// A keyword or an identifier that starts at `i`.
pub open spec fn scan_word(s: Seq<char>, i: int) -> Scan {
    let e = ident_end(s, i);
    let w = s.subrange(i, e);
    match keyword(w) {
        Some(k) => emit(k, e - i),
        None => Scan::Emit { kind: TokenKind::Identifier, text: w, value: 0, len: e - i },
    }
}

/// The lexical grammar at position `i` of `s`.
pub open spec fn scan(s: Seq<char>, i: int) -> Scan {
    let c = s[i];
    if c == ' ' || c == '\t' || c == '\n' {
        Scan::Skip { len: 1 }
    } else if c == '/' && next_char(s, i) == '/' {
        Scan::Skip { len: line_end(s, i) - i }
    } else if c == '/' && next_char(s, i) == '*' {
        Scan::Skip { len: block_end(s, i + 2) - i }
    } else if let Some((k, n)) = operator_at(s, i) {
        emit(k, n)
    } else if c == '&' {
        Scan::Fail { message: "Invalid character '&'"@, len: 1 }
    } else if c == '|' {
        Scan::Fail { message: "Invalid character '|'"@, len: 1 }
    } else if c == '"' {
        scan_string(s, i)
    } else if is_digit(c) {
        scan_number(s, i)
    } else if ident_start(c) {
        scan_word(s, i)
    } else {
        Scan::Fail { message: "Unexpected character: '"@ + seq![c] + "'"@, len: 1 }
    }
}

/// One step of the executable scanner.
pub enum Step {
    Skip(usize),
    Emit(TokenType, usize),
    Fail(String, usize),
}

impl View for Step {
    type V = Scan;

    open spec fn view(&self) -> Scan {
        match self {
            Step::Skip(n) => Scan::Skip { len: *n as int },
            Step::Emit(t, n) => Scan::Emit {
                kind: kind_of(*t),
                text: text_of(*t),
                value: value_of(*t),
                len: *n as int,
            },
            Step::Fail(m, n) => Scan::Fail { message: m@, len: *n as int },
        }
    }
}

/// Whether `chars[start..end]` spells `kw`.
fn word_is(chars: &Vec<char>, start: usize, end: usize, kw: &str) -> (r: bool)
    requires
        start <= end <= chars.len(),
    ensures
        r == (chars@.subrange(start as int, end as int) == kw@),
{
    let n = kw.unicode_len();
    if end - start != n {
        return false;
    }
    let mut k: usize = 0;
    while k < n
        invariant
            k <= n,
            n == kw@.len(),
            end - start == n,
            start <= end <= chars.len(),
            forall|m: int| 0 <= m < k ==> chars@[start + m] == kw@[m],
        decreases n - k,
    {
        if chars[start + k] != kw.get_char(k) {
            assert(chars@.subrange(start as int, end as int)[k as int] != kw@[k as int]);
            return false;
        }
        k += 1;
    }
    assert(chars@.subrange(start as int, end as int) =~= kw@);
    true
}

/// The keyword token that `chars[start..end]` spells, if any.
fn keyword_token(chars: &Vec<char>, start: usize, end: usize) -> (r: Option<TokenType>)
    requires
        start <= end <= chars.len(),
    ensures
        (r is Some) == (keyword(chars@.subrange(start as int, end as int)) is Some),
        r is Some ==> keyword(chars@.subrange(start as int, end as int)) == Some(kind_of(r->0))
            && text_of(r->0) == Seq::<char>::empty() && value_of(r->0) == 0,
{
    if word_is(chars, start, end, "int") {
        Some(TokenType::IntKeyword)
    } else if word_is(chars, start, end, "float") {
        Some(TokenType::FloatKeyword)
    } else if word_is(chars, start, end, "string") {
        Some(TokenType::StringKeyword)
    } else if word_is(chars, start, end, "bool") {
        Some(TokenType::BoolKeyword)
    } else if word_is(chars, start, end, "true") {
        Some(TokenType::TrueKeyword)
    } else if word_is(chars, start, end, "false") {
        Some(TokenType::FalseKeyword)
    } else if word_is(chars, start, end, "const") {
        Some(TokenType::ConstKeyword)
    } else if word_is(chars, start, end, "if") {
        Some(TokenType::IfKeyword)
    } else if word_is(chars, start, end, "else") {
        Some(TokenType::ElseKeyword)
    } else if word_is(chars, start, end, "do") {
        Some(TokenType::DoKeyword)
    } else if word_is(chars, start, end, "while") {
        Some(TokenType::WhileKeyword)
    } else if word_is(chars, start, end, "for") {
        Some(TokenType::ForKeyword)
    } else if word_is(chars, start, end, "of") {
        Some(TokenType::OfKeyword)
    } else if word_is(chars, start, end, "switch") {
        Some(TokenType::SwitchKeyword)
    } else if word_is(chars, start, end, "case") {
        Some(TokenType::CaseKeyword)
    } else if word_is(chars, start, end, "break") {
        Some(TokenType::BreakKeyword)
    } else if word_is(chars, start, end, "continue") {
        Some(TokenType::ContinueKeyword)
    } else if word_is(chars, start, end, "function") {
        Some(TokenType::FunctionKeyword)
    } else if word_is(chars, start, end, "return") {
        Some(TokenType::ReturnKeyword)
    } else if word_is(chars, start, end, "enum") {
        Some(TokenType::EnumKeyword)
    } else if word_is(chars, start, end, "object") {
        Some(TokenType::ObjectKeyword)
    } else if word_is(chars, start, end, "dict") {
        Some(TokenType::DictKeyword)
    } else if word_is(chars, start, end, "class") {
        Some(TokenType::ClassKeyword)
    } else if word_is(chars, start, end, "extends") {
        Some(TokenType::ExtendsKeyword)
    } else if word_is(chars, start, end, "implements") {
        Some(TokenType::ImplementsKeyword)
    } else if word_is(chars, start, end, "interface") {
        Some(TokenType::InterfaceKeyword)
    } else if word_is(chars, start, end, "public") {
        Some(TokenType::PublicKeyword)
    } else if word_is(chars, start, end, "private") {
        Some(TokenType::PrivateKeyword)
    } else if word_is(chars, start, end, "static") {
        Some(TokenType::StaticKeyword)
    } else if word_is(chars, start, end, "import") {
        Some(TokenType::ImportKeyword)
    } else if word_is(chars, start, end, "from") {
        Some(TokenType::FromKeyword)
    } else if word_is(chars, start, end, "export") {
        Some(TokenType::ExportKeyword)
    } else if word_is(chars, start, end, "default") {
        Some(TokenType::DefaultKeyword)
    } else if word_is(chars, start, end, "new") {
        Some(TokenType::NewKeyword)
    } else if word_is(chars, start, end, "this") {
        Some(TokenType::ThisKeyword)
    } else {
        None
    }
}

/// The characters `chars[start..end]` as a string.
pub(crate) fn string_of(chars: &Vec<char>, start: usize, end: usize) -> (r: String)
    requires
        start <= end <= chars.len(),
    ensures
        r@ == chars@.subrange(start as int, end as int),
{
    let mut out = String::new();
    let mut k = start;
    while k < end
        invariant
            start <= k <= end <= chars.len(),
            out@ == chars@.subrange(start as int, k as int),
        decreases end - k,
    {
        push_char(&mut out, chars[k]);
        assert(out@ =~= chars@.subrange(start as int, k + 1));
        k += 1;
    }
    out
}

fn digits_end_at(chars: &Vec<char>, j: usize) -> (r: usize)
    requires
        j <= chars.len(),
    ensures
        r == digits_end(chars@, j as int),
        j <= r <= chars.len(),
{
    let mut k = j;
    while k < chars.len() && '0' <= chars[k] && chars[k] <= '9'
        invariant
            j <= k <= chars.len(),
            digits_end(chars@, k as int) == digits_end(chars@, j as int),
        decreases chars.len() - k,
    {
        k += 1;
    }
    k
}

fn ident_end_at(chars: &Vec<char>, j: usize) -> (r: usize)
    requires
        j <= chars.len(),
    ensures
        r == ident_end(chars@, j as int),
        j <= r <= chars.len(),
{
    let mut k = j;
    while k < chars.len() && (is_alphabetic(chars[k]) || ('0' <= chars[k] && chars[k] <= '9')
        || chars[k] == '_')
        invariant
            j <= k <= chars.len(),
            ident_end(chars@, k as int) == ident_end(chars@, j as int),
        decreases chars.len() - k,
    {
        k += 1;
    }
    k
}

fn line_end_at(chars: &Vec<char>, j: usize) -> (r: usize)
    requires
        j <= chars.len(),
    ensures
        r == line_end(chars@, j as int),
        j <= r <= chars.len(),
{
    let mut k = j;
    while k < chars.len() && chars[k] != '\n'
        invariant
            j <= k <= chars.len(),
            line_end(chars@, k as int) == line_end(chars@, j as int),
        decreases chars.len() - k,
    {
        k += 1;
    }
    k
}

fn block_end_at(chars: &Vec<char>, j: usize) -> (r: usize)
    requires
        j <= chars.len(),
    ensures
        r == block_end(chars@, j as int),
        j < r <= chars.len() || r == chars.len(),
{
    let mut k = j;
    while k < chars.len() && k + 1 < chars.len()
        invariant
            j <= k,
            k <= chars.len(),
            block_end(chars@, k as int) == block_end(chars@, j as int),
        decreases chars.len() - k,
    {
        if chars[k] == '*' && chars[k + 1] == '/' {
            return k + 2;
        }
        k += 1;
    }
    chars.len()
}

fn string_close_at(chars: &Vec<char>, j: usize) -> (r: Option<usize>)
    requires
        j <= chars.len(),
    ensures
        r matches Some(q) ==> j <= q < chars.len(),
        match r {
            Some(q) => string_close(chars@, j as int) == Some(q as int),
            None => string_close(chars@, j as int) is None,
        },
{
    let mut k = j;
    while k < chars.len()
        invariant
            j <= k <= chars.len(),
            string_close(chars@, k as int) == string_close(chars@, j as int),
        decreases chars.len() - k,
    {
        if chars[k] == '"' {
            return Some(k);
        } else if chars[k] == '\\' {
            if k + 1 < chars.len() {
                k += 2;
            } else {
                return None;
            }
        } else {
            k += 1;
        }
    }
    None
}

/// The contents `chars[start..end]` of a string literal with its escapes resolved.
fn unescape_range(chars: &Vec<char>, start: usize, end: usize) -> (r: String)
    requires
        start <= end <= chars.len(),
    ensures
        r@ == unescape(chars@.subrange(start as int, end as int)),
{
    let ghost s = chars@;
    let mut out = String::new();
    let mut k = start;
    while k < end
        invariant
            start <= k <= end <= chars.len(),
            s == chars@,
            out@ + unescape(s.subrange(k as int, end as int)) == unescape(
                s.subrange(start as int, end as int),
            ),
        decreases end - k,
    {
        let ghost rest = s.subrange(k as int, end as int);
        let ghost before = out@;
        if chars[k] == '\\' && k + 1 < end {
            let e = chars[k + 1];
            assert(rest.subrange(2, rest.len() as int) =~= s.subrange(k + 2, end as int));
            if e == 'n' {
                push_char(&mut out, '\n');
            } else if e == 't' {
                push_char(&mut out, '\t');
            } else if e == 'r' {
                push_char(&mut out, '\r');
            } else if e == '\\' {
                push_char(&mut out, '\\');
            } else if e == '"' {
                push_char(&mut out, '"');
            } else {
                push_char(&mut out, '\\');
                push_char(&mut out, e);
            }
            assert(out@ + unescape(s.subrange(k + 2, end as int)) =~= before + unescape(rest));
            k += 2;
        } else {
            push_char(&mut out, chars[k]);
            assert(rest.subrange(1, rest.len() as int) =~= s.subrange(k + 1, end as int));
            assert(out@ + unescape(s.subrange(k + 1, end as int)) =~= before + unescape(rest));
            k += 1;
        }
    }
    assert(out@ + unescape(s.subrange(end as int, end as int)) =~= out@);
    out
}

/// The value of the digits `chars[start..end]`, when it fits in an `i32`.
fn decimal_value(chars: &Vec<char>, start: usize, end: usize) -> (r: Option<i32>)
    requires
        start <= end <= chars.len(),
        forall|m: int| start <= m < end ==> is_digit(#[trigger] chars@[m]),
    ensures
        (r is Some) == (decimal(chars@.subrange(start as int, end as int)) <= i32::MAX),
        r matches Some(v) ==> v as int == decimal(chars@.subrange(start as int, end as int)),
{
    let mut acc: u64 = 0;
    let mut big = false;
    let mut k = start;
    while k < end
        invariant
            start <= k <= end <= chars.len(),
            forall|m: int| start <= m < end ==> is_digit(#[trigger] chars@[m]),
            !big ==> acc == decimal(chars@.subrange(start as int, k as int)) && acc <= i32::MAX,
            big ==> decimal(chars@.subrange(start as int, k as int)) > i32::MAX,
        decreases end - k,
    {
        let ghost w = chars@.subrange(start as int, k + 1);
        assert(w.drop_last() =~= chars@.subrange(start as int, k as int));
        assert(w.last() == chars@[k as int]);
        assert(is_digit(chars@[k as int]));
        let d = (chars[k] as u32 - '0' as u32) as u64;
        if !big {
            let v = acc * 10 + d;
            if v > i32::MAX as u64 {
                big = true;
            } else {
                acc = v;
            }
        }
        k += 1;
    }
    if big {
        None
    } else {
        Some(acc as i32)
    }
}

/// Lengths of what the scanner consumes: at least one character, and no more than remain.
pub proof fn lemma_scan_len(s: Seq<char>, i: int)
    requires
        0 <= i < s.len(),
    ensures
        1 <= scan_len(scan(s, i)) <= s.len() - i,
{
    let c = s[i];
    if c == '/' && next_char(s, i) == '/' {
        lemma_line_end(s, i + 1);
    } else if c == '/' && next_char(s, i) == '*' {
        lemma_block_end(s, i + 2);
    } else if c == '"' {
        lemma_string_close(s, i + 1);
    } else if is_digit(c) {
        lemma_digits_end(s, i + 1);
        let d = digits_end(s, i);
        if d + 1 < s.len() && s[d] == '.' && is_digit(s[d + 1]) {
            lemma_digits_end(s, d + 2);
        }
    } else if ident_start(c) {
        lemma_ident_end(s, i + 1);
    }
}

/// How many characters a scan step consumes.
pub open spec fn scan_len(sc: Scan) -> int {
    match sc {
        Scan::Skip { len } => len,
        Scan::Emit { len, .. } => len,
        Scan::Fail { len, .. } => len,
    }
}

proof fn lemma_digits_end(s: Seq<char>, j: int)
    requires
        0 <= j <= s.len(),
    ensures
        j <= digits_end(s, j) <= s.len(),
        forall|m: int| j <= m < digits_end(s, j) ==> is_digit(#[trigger] s[m]),
    decreases s.len() - j,
{
    if j < s.len() && is_digit(s[j]) {
        lemma_digits_end(s, j + 1);
    }
}

proof fn lemma_ident_end(s: Seq<char>, j: int)
    requires
        0 <= j <= s.len(),
    ensures
        j <= ident_end(s, j) <= s.len(),
    decreases s.len() - j,
{
    if j < s.len() && ident_char(s[j]) {
        lemma_ident_end(s, j + 1);
    }
}

proof fn lemma_line_end(s: Seq<char>, j: int)
    requires
        0 <= j <= s.len(),
    ensures
        j <= line_end(s, j) <= s.len(),
    decreases s.len() - j,
{
    if j < s.len() && s[j] != '\n' {
        lemma_line_end(s, j + 1);
    }
}

proof fn lemma_block_end(s: Seq<char>, j: int)
    requires
        0 <= j,
    ensures
        j <= s.len() ==> j <= block_end(s, j),
        block_end(s, j) <= s.len(),
    decreases s.len() - j,
{
    if 0 <= j && j + 1 < s.len() && !(s[j] == '*' && s[j + 1] == '/') {
        lemma_block_end(s, j + 1);
    }
}

proof fn lemma_string_close(s: Seq<char>, j: int)
    requires
        0 <= j,
    ensures
        string_close(s, j) matches Some(q) ==> j <= q < s.len(),
    decreases s.len() - j,
{
    if 0 <= j < s.len() {
        if s[j] == '\\' && j + 1 < s.len() {
            lemma_string_close(s, j + 2);
        } else if s[j] != '"' && s[j] != '\\' {
            lemma_string_close(s, j + 1);
        }
    }
}

/// The operator or punctuation token at `chars[i]`, with its length.
fn operator_token(chars: &Vec<char>, i: usize) -> (r: Option<(TokenType, usize)>)
    requires
        i < chars.len(),
    ensures
        match r {
            Some((t, n)) => operator_at(chars@, i as int) == Some((kind_of(t), n as int))
                && text_of(t) == Seq::<char>::empty() && value_of(t) == 0,
            None => operator_at(chars@, i as int) is None,
        },
{
    let c = chars[i];
    let n = if i + 1 < chars.len() {
        chars[i + 1]
    } else {
        '\0'
    };
    if c == '+' {
        if n == '+' {
            Some((TokenType::PlusPlus, 2))
        } else if n == '=' {
            Some((TokenType::PlusEquals, 2))
        } else {
            Some((TokenType::Plus, 1))
        }
    } else if c == '-' {
        if n == '-' {
            Some((TokenType::MinusMinus, 2))
        } else if n == '=' {
            Some((TokenType::MinusEquals, 2))
        } else {
            Some((TokenType::Minus, 1))
        }
    } else if c == '*' {
        if n == '=' { Some((TokenType::StarEquals, 2)) } else { Some((TokenType::Star, 1)) }
    } else if c == '/' {
        if n == '=' { Some((TokenType::SlashEquals, 2)) } else { Some((TokenType::Slash, 1)) }
    } else if c == '%' {
        if n == '=' { Some((TokenType::PercentEquals, 2)) } else { Some((TokenType::Percent, 1)) }
    } else if c == '=' {
        if n == '=' {
            Some((TokenType::EqualsEquals, 2))
        } else if n == '>' {
            Some((TokenType::EqualsGreaterThan, 2))
        } else {
            Some((TokenType::Equals, 1))
        }
    } else if c == '!' {
        if n == '=' { Some((TokenType::NotEquals, 2)) } else { Some((TokenType::LogicalNot, 1)) }
    } else if c == '>' {
        if n == '=' {
            Some((TokenType::GreaterThanEquals, 2))
        } else {
            Some((TokenType::GreaterThan, 1))
        }
    } else if c == '<' {
        if n == '=' { Some((TokenType::LessThanEquals, 2)) } else { Some((TokenType::LessThan, 1)) }
    } else if c == '&' && n == '&' {
        Some((TokenType::LogicalAnd, 2))
    } else if c == '|' && n == '|' {
        Some((TokenType::LogicalOr, 2))
    } else if c == ';' {
        Some((TokenType::Semicolon, 1))
    } else if c == ',' {
        Some((TokenType::Comma, 1))
    } else if c == ':' {
        Some((TokenType::Colon, 1))
    } else if c == '.' {
        Some((TokenType::Dot, 1))
    } else if c == '(' {
        Some((TokenType::LeftParen, 1))
    } else if c == ')' {
        Some((TokenType::RightParen, 1))
    } else if c == '{' {
        Some((TokenType::LeftBrace, 1))
    } else if c == '}' {
        Some((TokenType::RightBrace, 1))
    } else if c == '[' {
        Some((TokenType::LeftBracket, 1))
    } else if c == ']' {
        Some((TokenType::RightBracket, 1))
    } else {
        None
    }
}

fn scan_string_at(chars: &Vec<char>, i: usize) -> (r: Step)
    requires
        i < chars.len(),
    ensures
        r@ == scan_string(chars@, i as int),
{
    match string_close_at(chars, i + 1) {
        Some(q) => Step::Emit(TokenType::String(unescape_range(chars, i + 1, q)), q + 1 - i),
        None => Step::Fail(String::from_str("Unterminated string literal"), chars.len() - i),
    }
}

fn scan_number_at(chars: &Vec<char>, i: usize) -> (r: Step)
    requires
        i < chars.len(),
    ensures
        r@ == scan_number(chars@, i as int),
{
    let d = digits_end_at(chars, i);
    proof {
        lemma_digits_end(chars@, i as int);
    }
    if d < chars.len() && d + 1 < chars.len() && chars[d] == '.' && '0' <= chars[d + 1]
        && chars[d + 1] <= '9' {
        let e = digits_end_at(chars, d + 1);
        Step::Emit(TokenType::Float(string_of(chars, i, e)), e - i)
    } else {
        match decimal_value(chars, i, d) {
            Some(v) => Step::Emit(TokenType::Int(v), d - i),
            None => Step::Fail(String::from_str("Invalid integer literal"), d - i),
        }
    }
}

fn scan_word_at(chars: &Vec<char>, i: usize) -> (r: Step)
    requires
        i < chars.len(),
    ensures
        r@ == scan_word(chars@, i as int),
{
    let e = ident_end_at(chars, i);
    match keyword_token(chars, i, e) {
        Some(t) => Step::Emit(t, e - i),
        None => Step::Emit(TokenType::Identifier(string_of(chars, i, e)), e - i),
    }
}

/// One step of the scanner at `chars[i]`, as the lexical grammar states it.
pub fn scan_at(chars: &Vec<char>, i: usize) -> (r: Step)
    requires
        i < chars.len(),
    ensures
        r@ == scan(chars@, i as int),
{
    let c = chars[i];
    let n = if i + 1 < chars.len() {
        chars[i + 1]
    } else {
        '\0'
    };
    if c == ' ' || c == '\t' || c == '\n' {
        Step::Skip(1)
    } else if c == '/' && n == '/' {
        Step::Skip(line_end_at(chars, i) - i)
    } else if c == '/' && n == '*' {
        Step::Skip(block_end_at(chars, i + 2) - i)
    } else if let Some((t, len)) = operator_token(chars, i) {
        Step::Emit(t, len)
    } else if c == '&' {
        Step::Fail(String::from_str("Invalid character '&'"), 1)
    } else if c == '|' {
        Step::Fail(String::from_str("Invalid character '|'"), 1)
    } else if c == '"' {
        scan_string_at(chars, i)
    } else if '0' <= c && c <= '9' {
        scan_number_at(chars, i)
    } else if is_alphabetic(c) || c == '_' {
        scan_word_at(chars, i)
    } else {
        let mut m = String::from_str("Unexpected character: '");
        push_char(&mut m, c);
        m.append("'");
        proof {
            assert(m@ =~= "Unexpected character: '"@ + seq![c] + "'"@);
        }
        Step::Fail(m, 1)
    }
}

} // verus!
