use vstd::prelude::*;
use vstd::string::StringExecFns;

verus! {

/// The kinds of token. The set is closed: whatever the lexer reads becomes a
/// token of exactly one of these kinds.
#[derive(Debug, PartialEq, Eq, Clone, Copy, Structural)]
pub enum TokenType {
    /// A character that starts no token.
    Illegal,
    /// The end of the text.
    EOF,
    /// A name: a run of letters that is no keyword.
    IDENT,
    /// A run of decimal digits.
    INT,
    /// `=`
    ASSIGN,
    /// `+`
    PLUS,
    /// `,`
    COMMA,
    /// `;`
    SEMICOLON,
    /// `(`
    LPAREN,
    /// `)`
    RPAREN,
    /// `{`
    LBRACE,
    /// `}`
    RBRACE,
    /// The keyword `fn`.
    FUNCTION,
    /// The keyword `let`.
    LET,
}

/// A token: its kind, and the piece of text it was read from.
#[derive(Debug)]
pub struct Token {
    pub token_type: TokenType,
    pub literal: String,
}

/// What a token is, with its literal as a sequence of characters.
pub struct TokenView {
    pub token_type: TokenType,
    pub literal: Seq<char>,
}

impl View for Token {
    type V = TokenView;

    open spec fn view(&self) -> TokenView {
        TokenView { token_type: self.token_type, literal: self.literal@ }
    }
}

/// Two tokens are equal when they have the same kind and the same literal.
impl PartialEq for Token {
    fn eq(&self, other: &Token) -> (equal: bool) {
        self.token_type == other.token_type && self.literal == other.literal
    }
}

impl vstd::std_specs::cmp::PartialEqSpecImpl for Token {
    open spec fn obeys_eq_spec() -> bool {
        true
    }

    open spec fn eq_spec(&self, other: &Token) -> bool {
        self@ == other@
    }
}

impl Eq for Token {

}

impl Clone for Token {
    fn clone(&self) -> (copy: Token)
        ensures
            copy == *self,
    {
        Token { token_type: self.token_type, literal: self.literal.clone() }
    }
}

/// The token that marks the end of the text: it has no literal.
pub open spec fn end_of_input() -> TokenView {
    TokenView { token_type: TokenType::EOF, literal: Seq::empty() }
}

/// The kind of a word made of letters: `let` and `fn` are keywords, every
/// other word is a name.
pub open spec fn word_kind(word: Seq<char>) -> TokenType {
    if word == "let"@ {
        TokenType::LET
    } else if word == "fn"@ {
        TokenType::FUNCTION
    } else {
        TokenType::IDENT
    }
}

/// Looks a word up in the keyword table.
pub fn lookup_ident(word: &String) -> (kind: TokenType)
    ensures
        kind == word_kind(word@),
{
    if *word == String::from_str("let") {
        TokenType::LET
    } else if *word == String::from_str("fn") {
        TokenType::FUNCTION
    } else {
        TokenType::IDENT
    }
}

} // verus!
