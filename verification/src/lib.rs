pub mod character;
pub mod grammar;
pub mod lexer;
pub mod token;
