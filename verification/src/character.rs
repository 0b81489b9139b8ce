use crate::token::TokenType;
use vstd::prelude::*;

verus! {

/// The class a character falls into when the lexer looks at it.
///
/// Every character has exactly one class. The classes are tried in the order
/// in which they are listed, so a character that could pass for two of them
/// takes the earlier one.
#[derive(Debug, PartialEq, Eq, Clone, Copy, Structural)]
pub enum CharClass {
    /// Space, tab, line feed or carriage return.
    Whitespace,
    /// One of the eight single-character tokens, with the kind of that token.
    Symbol(TokenType),
    /// The underscore or an alphabetic character.
    Letter,
    /// An ASCII decimal digit.
    Digit,
    /// Anything else.
    Other,
}

/// Whether `c` has the Unicode `Alphabetic` property, as `char::is_alphabetic`
/// reports it.
pub uninterp spec fn is_alphabetic(c: char) -> bool;

/// `char::is_alphabetic` of the standard library. Nothing is proved of it: the
/// claim is only that its answer depends on the character alone, so that it
/// can be named `is_alphabetic(c)` in specifications.
pub assume_specification[ char::is_alphabetic ](c: char) -> (b: bool)
    ensures
        b == is_alphabetic(c),
;

/// Whether `c` is one of the four characters that separate tokens: space,
/// tab, line feed, carriage return.
pub open spec fn is_whitespace(c: char) -> bool {
    c == ' ' || c == '\t' || c == '\n' || c == '\r'
}

/// The kind of the token that `c` is by itself, if it is one of the eight
/// symbols.
pub open spec fn symbol_kind(c: char) -> Option<TokenType> {
    if c == '=' {
        Some(TokenType::ASSIGN)
    } else if c == '+' {
        Some(TokenType::PLUS)
    } else if c == ',' {
        Some(TokenType::COMMA)
    } else if c == ';' {
        Some(TokenType::SEMICOLON)
    } else if c == '(' {
        Some(TokenType::LPAREN)
    } else if c == ')' {
        Some(TokenType::RPAREN)
    } else if c == '{' {
        Some(TokenType::LBRACE)
    } else if c == '}' {
        Some(TokenType::RBRACE)
    } else {
        None
    }
}

/// Whether `c` is one of the ten ASCII decimal digits.
pub open spec fn is_digit(c: char) -> bool {
    '0' <= c <= '9'
}

/// The class of `c`, for a character of which it is known whether it is
/// alphabetic. Whitespace and symbols come first, then letters, then digits.
pub open spec fn class_given(c: char, alphabetic: bool) -> CharClass {
    if is_whitespace(c) {
        CharClass::Whitespace
    } else if let Some(kind) = symbol_kind(c) {
        CharClass::Symbol(kind)
    } else if c == '_' || alphabetic {
        CharClass::Letter
    } else if is_digit(c) {
        CharClass::Digit
    } else {
        CharClass::Other
    }
}

/// The class of `c`.
pub open spec fn class_of(c: char) -> CharClass {
    class_given(c, is_alphabetic(c))
}

/// Sorts a character into its class, given whether it is alphabetic. All the
/// rules on characters are here; only the alphabetic property comes from
/// outside.
pub fn classify_given(ch: char, alphabetic: bool) -> (class: CharClass)
    ensures
        class == class_given(ch, alphabetic),
{
    match ch {
        ' ' | '\t' | '\n' | '\r' => CharClass::Whitespace,
        '=' => CharClass::Symbol(TokenType::ASSIGN),
        '+' => CharClass::Symbol(TokenType::PLUS),
        ',' => CharClass::Symbol(TokenType::COMMA),
        ';' => CharClass::Symbol(TokenType::SEMICOLON),
        '(' => CharClass::Symbol(TokenType::LPAREN),
        ')' => CharClass::Symbol(TokenType::RPAREN),
        '{' => CharClass::Symbol(TokenType::LBRACE),
        '}' => CharClass::Symbol(TokenType::RBRACE),
        _ => {
            if ch == '_' || alphabetic {
                CharClass::Letter
            } else if '0' <= ch && ch <= '9' {
                CharClass::Digit
            } else {
                CharClass::Other
            }
        },
    }
}

/// Sorts a character into its class.
pub fn classify(ch: char) -> (class: CharClass)
    ensures
        class == class_of(ch),
{
    classify_given(ch, ch.is_alphabetic())
}

} // verus!
