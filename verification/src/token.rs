//! The lexical alphabet: tokens, source spans, and lexical errors.

use vstd::prelude::*;

verus! {

/// A half-open range `start..end` of character offsets into the source text.
#[derive(Clone, Copy, Debug, PartialEq, Eq, Structural)]
pub struct Span {
    pub start: usize,
    pub end: usize,
}

/// One lexical token of the source language.
///
/// The keyword set, punctuation and operators are fixed; `Identifier`,
/// `Integer`, `BitVector` and `StringLiteral` carry the data scanned from
/// the source.  A `BitVector` keeps its raw text (including the leading
/// quote) verbatim; it is never numerically interpreted.
#[derive(Debug, PartialEq, Eq)]
pub enum VToken {
    Module,
    Port,
    Input,
    Output,
    Reg,
    Wire,
    Combinatorial,
    Switch,
    Case,
    Default,
    Gen,
    If,
    LBrace,
    RBrace,
    LBracket,
    RBracket,
    LParen,
    RParen,
    Colon,
    Semicolon,
    Assign,
    Plus,
    Minus,
    BitAnd,
    BitOr,
    BitXor,
    Shl,
    Identifier(String),
    Integer(i64),
    BitVector(String),
    StringLiteral(String),
}

impl Clone for VToken {
    /// Cloning a token preserves it exactly.
    fn clone(&self) -> (res: Self)
        ensures
            res == self,
    {
        match self {
            VToken::Module => VToken::Module,
            VToken::Port => VToken::Port,
            VToken::Input => VToken::Input,
            VToken::Output => VToken::Output,
            VToken::Reg => VToken::Reg,
            VToken::Wire => VToken::Wire,
            VToken::Combinatorial => VToken::Combinatorial,
            VToken::Switch => VToken::Switch,
            VToken::Case => VToken::Case,
            VToken::Default => VToken::Default,
            VToken::Gen => VToken::Gen,
            VToken::If => VToken::If,
            VToken::LBrace => VToken::LBrace,
            VToken::RBrace => VToken::RBrace,
            VToken::LBracket => VToken::LBracket,
            VToken::RBracket => VToken::RBracket,
            VToken::LParen => VToken::LParen,
            VToken::RParen => VToken::RParen,
            VToken::Colon => VToken::Colon,
            VToken::Semicolon => VToken::Semicolon,
            VToken::Assign => VToken::Assign,
            VToken::Plus => VToken::Plus,
            VToken::Minus => VToken::Minus,
            VToken::BitAnd => VToken::BitAnd,
            VToken::BitOr => VToken::BitOr,
            VToken::BitXor => VToken::BitXor,
            VToken::Shl => VToken::Shl,
            VToken::Identifier(s) => VToken::Identifier(s.clone()),
            VToken::Integer(v) => VToken::Integer(*v),
            VToken::BitVector(s) => VToken::BitVector(s.clone()),
            VToken::StringLiteral(s) => VToken::StringLiteral(s.clone()),
        }
    }
}

/// The mathematical value of a [`VToken`]: identical in shape, with the
/// carried text abstracted to a sequence of characters.
pub enum TokenV {
    Module,
    Port,
    Input,
    Output,
    Reg,
    Wire,
    Combinatorial,
    Switch,
    Case,
    Default,
    Gen,
    If,
    LBrace,
    RBrace,
    LBracket,
    RBracket,
    LParen,
    RParen,
    Colon,
    Semicolon,
    Assign,
    Plus,
    Minus,
    BitAnd,
    BitOr,
    BitXor,
    Shl,
    Identifier(Seq<char>),
    Integer(i64),
    BitVector(Seq<char>),
    StringLiteral(Seq<char>),
}

impl View for VToken {
    type V = TokenV;

    open spec fn view(&self) -> TokenV {
        match self {
            VToken::Module => TokenV::Module,
            VToken::Port => TokenV::Port,
            VToken::Input => TokenV::Input,
            VToken::Output => TokenV::Output,
            VToken::Reg => TokenV::Reg,
            VToken::Wire => TokenV::Wire,
            VToken::Combinatorial => TokenV::Combinatorial,
            VToken::Switch => TokenV::Switch,
            VToken::Case => TokenV::Case,
            VToken::Default => TokenV::Default,
            VToken::Gen => TokenV::Gen,
            VToken::If => TokenV::If,
            VToken::LBrace => TokenV::LBrace,
            VToken::RBrace => TokenV::RBrace,
            VToken::LBracket => TokenV::LBracket,
            VToken::RBracket => TokenV::RBracket,
            VToken::LParen => TokenV::LParen,
            VToken::RParen => TokenV::RParen,
            VToken::Colon => TokenV::Colon,
            VToken::Semicolon => TokenV::Semicolon,
            VToken::Assign => TokenV::Assign,
            VToken::Plus => TokenV::Plus,
            VToken::Minus => TokenV::Minus,
            VToken::BitAnd => TokenV::BitAnd,
            VToken::BitOr => TokenV::BitOr,
            VToken::BitXor => TokenV::BitXor,
            VToken::Shl => TokenV::Shl,
            VToken::Identifier(s) => TokenV::Identifier(s@),
            VToken::Integer(v) => TokenV::Integer(*v),
            VToken::BitVector(s) => TokenV::BitVector(s@),
            VToken::StringLiteral(s) => TokenV::StringLiteral(s@),
        }
    }
}

/// What went wrong at one place in the source during lexical analysis.
#[derive(Clone, Copy, Debug, PartialEq, Eq, Structural)]
pub enum LexErrorKind {
    /// A character that begins no token.
    UnrecognizedChar(char),
    /// A `/*` block comment still open at end of input.
    UnterminatedComment,
    /// A `"` string literal still open at end of input.
    UnterminatedString,
    /// A decimal integer literal that does not fit in a signed 64-bit value.
    IntegerOverflow,
}

/// A lexical diagnostic: the offending span and what was found there.
///
/// Lexical errors never halt the scan; the lexer records the error and
/// resumes, so one pass reports every such fault in the source.
#[derive(Clone, Copy, Debug, PartialEq, Eq, Structural)]
pub struct LexError {
    pub span: Span,
    pub kind: LexErrorKind,
}

/// The view of a lexed token stream: token values paired with their spans.
pub open spec fn tokens_view(toks: Seq<(VToken, Span)>) -> Seq<(TokenV, Span)> {
    toks.map(|i: int, t: (VToken, Span)| (t.0@, t.1))
}

} // verus!
