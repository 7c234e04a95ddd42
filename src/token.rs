use vstd::prelude::*;

verus! {

/// The kinds of lexical unit of the language.
#[derive(Clone, Copy, Debug, PartialEq, Eq, Structural)]
pub enum TokenType {
    Plus,
    Minus,
    Astrik,
    Slash,
    LParent,
    RParent,
    LBrace,
    RBrace,
    LBrack,
    RBrack,
    Assign,
    Colon,
    Comma,
    Dot,
    Semicolon,
    And,
    Or,
    GT,
    LT,
    GTEQ,
    LTEQ,
    EQ,
    Integer,
    String,
    Identifier,
    If,
    Else,
    Func,
    Var,
    Const,
    Return,
    EOF,
}

/// A classified lexical unit together with its source text.
#[derive(Clone, Debug)]
pub struct Token {
    pub token_type: TokenType,
    pub value: String,
}

} // verus!
