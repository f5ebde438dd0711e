use vstd::prelude::*;

verus! {

/// A lexical error: what went wrong, and the 1-based line and column where it starts.
#[derive(Debug, Clone, PartialEq)]
pub struct LexerError {
    pub message: String,
    pub line: usize,
    pub column: usize,
}

/// A lexical error as plain values.
pub struct LexerErrorView {
    pub message: Seq<char>,
    pub line: int,
    pub column: int,
}

impl View for LexerError {
    type V = LexerErrorView;

    open spec fn view(&self) -> LexerErrorView {
        LexerErrorView { message: self.message@, line: self.line as int, column: self.column as int }
    }
}

} // verus!
