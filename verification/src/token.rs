//! Typed tokens, the boundary between the character-level scanner and the
//! parser.

use vstd::prelude::*;

verus! {

/// The kind of a token.
#[derive(Debug, Clone, Copy, PartialEq, Eq, Structural)]
pub enum TokenType {
    IntLiteral,
    FloatLiteral,
    StringLiteral,
    CharLiteral,
    BoolLiteral,
    Identifier,
    Operator,
    Symbol,
    Keyword,
    Whitespace,
    EOF,
}

/// One token: its kind, its text, and the character position it starts at.
#[derive(Debug, PartialEq)]
pub struct Token {
    pub token_type: TokenType,
    pub content: String,
    pub position: usize,
}

impl Token {
    /// Bundles a token.
    pub fn new(token_type: TokenType, content: String, position: usize) -> (t: Token)
        ensures
            t.token_type == token_type,
            t.content == content,
            t.position == position,
    {
        Token { token_type, content, position }
    }
}

} // verus!
