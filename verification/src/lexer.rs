use crate::character::{classify, CharClass};
use crate::grammar::{lemma_run_end, lemma_scan_advances, run_end, scan};
use crate::token::{end_of_input, lookup_ident, Token, TokenType};
use vstd::prelude::*;
use vstd::string::StrSliceExecFns;

verus! {

/// A cursor over a text, from which tokens are read one at a time.
pub struct Lexer {
    input: String,
    /// Index of the current character.
    position: usize,
    /// Index of the character that is read next.
    read_position: usize,
    /// The current character; `None` once the text is used up.
    ch: Option<char>,
}

/// The state of a lexer: the text, in characters, and the cursor on it.
pub struct LexerView {
    pub input: Seq<char>,
    pub position: nat,
    pub read_position: nat,
    pub ch: Option<char>,
}

/// The character of `text` at index `at`, if there is one.
pub open spec fn char_at(text: Seq<char>, at: int) -> Option<char> {
    if 0 <= at < text.len() {
        Some(text[at])
    } else {
        None
    }
}

impl View for Lexer {
    type V = LexerView;

    closed spec fn view(&self) -> LexerView {
        LexerView {
            input: self.input@,
            position: self.position as nat,
            read_position: self.read_position as nat,
            ch: self.ch,
        }
    }
}

impl Lexer {
    /// What holds of a lexer between any two calls: the cursor is on a
    /// character of the text or just behind the last one, the read position
    /// is one ahead of it, and the current character is the one under the
    /// cursor, so it is `None` exactly when the read position has run past the
    /// end of the text.
    pub open spec fn wf(&self) -> bool {
        &&& self@.position <= self@.input.len() < usize::MAX
        &&& self@.read_position == self@.position + 1
        &&& self@.ch == char_at(self@.input, self@.position as int)
    }

    /// A lexer at the start of `input`, with the first character staged.
    pub fn new(input: &str) -> (lexer: Lexer)
        requires
            input@.len() < usize::MAX,
        ensures
            lexer.wf(),
            lexer@.input == input@,
            lexer@.position == 0,
    {
        let mut lexer = Lexer { input: input.to_owned(), position: 0, read_position: 0, ch: None };
        lexer.read_char();
        lexer
    }

    /// Moves the cursor on by one character: the character at the read
    /// position becomes the current one, or `None` if the read position is at
    /// the end of the text.
    fn read_char(&mut self)
        requires
            old(self).read_position <= old(self).input@.len() < usize::MAX,
        ensures
            final(self).input == old(self).input,
            final(self).position == old(self).read_position,
            final(self).read_position == old(self).read_position + 1,
            final(self).ch == char_at(old(self).input@, old(self).read_position as int),
    {
        let text = self.input.as_str();
        let ch = if self.read_position >= text.unicode_len() {
            None
        } else {
            Some(text.get_char(self.read_position))
        };
        self.ch = ch;
        self.position = self.read_position;
        self.read_position = self.read_position + 1;
    }

    /// Whether the current character is of the given class.
    fn at_class(&self, class: CharClass) -> (at: bool)
        requires
            self.wf(),
        ensures
            at == (self@.position < self@.input.len() && crate::character::class_of(
                self@.input[self@.position as int],
            ) == class),
    {
        match self.ch {
            Some(ch) => classify(ch) == class,
            None => false,
        }
    }

    /// Moves the cursor to the end of the run of characters of the given
    /// class that starts under it.
    fn skip_run(&mut self, class: CharClass)
        requires
            old(self).wf(),
        ensures
            final(self).wf(),
            final(self)@.input == old(self)@.input,
            final(self)@.position == run_end(
                old(self)@.input,
                old(self)@.position as int,
                class,
            ),
    {
        while self.at_class(class)
            invariant
                self.wf(),
                self@.input == old(self)@.input,
                run_end(self@.input, self@.position as int, class) == run_end(
                    old(self)@.input,
                    old(self)@.position as int,
                    class,
                ),
            decreases self@.input.len() - self@.position,
        {
            self.read_char();
        }
    }

    /// The characters of the text from index `from` up to `to`, as a string.
    fn slice(&self, from: usize, to: usize) -> (part: String)
        requires
            from <= to <= self@.input.len(),
        ensures
            part@ == self@.input.subrange(from as int, to as int),
    {
        self.input.as_str().substring_char(from, to).to_owned()
    }

    /// Passes over the whitespace under the cursor, if any.
    fn skip_whitespace(&mut self)
        requires
            old(self).wf(),
        ensures
            final(self).wf(),
            final(self)@.input == old(self)@.input,
            final(self)@.position == run_end(
                old(self)@.input,
                old(self)@.position as int,
                CharClass::Whitespace,
            ),
    {
        self.skip_run(CharClass::Whitespace);
    }

    /// Reads the word under the cursor: the letters from the cursor on, as
    /// far as they go.
    fn read_identifier(&mut self) -> (word: String)
        requires
            old(self).wf(),
        ensures
            final(self).wf(),
            final(self)@.input == old(self)@.input,
            final(self)@.position == run_end(
                old(self)@.input,
                old(self)@.position as int,
                CharClass::Letter,
            ),
            word@ == old(self)@.input.subrange(
                old(self)@.position as int,
                final(self)@.position as int,
            ),
    {
        let position = self.position;
        proof {
            lemma_run_end(self@.input, position as int, CharClass::Letter);
        }
        self.skip_run(CharClass::Letter);
        self.slice(position, self.position)
    }

    /// Reads the number under the cursor: the digits from the cursor on, as
    /// far as they go.
    fn read_number(&mut self) -> (digits: String)
        requires
            old(self).wf(),
        ensures
            final(self).wf(),
            final(self)@.input == old(self)@.input,
            final(self)@.position == run_end(
                old(self)@.input,
                old(self)@.position as int,
                CharClass::Digit,
            ),
            digits@ == old(self)@.input.subrange(
                old(self)@.position as int,
                final(self)@.position as int,
            ),
    {
        let position = self.position;
        proof {
            lemma_run_end(self@.input, position as int, CharClass::Digit);
        }
        self.skip_run(CharClass::Digit);
        self.slice(position, self.position)
    }

    /// Reads the next token and moves the cursor behind it.
    ///
    /// The token and the new cursor are those of `scan` on the text at the
    /// old cursor. At the end of the text the token is end of input and the
    /// lexer stays as it is, however often it is asked.
    pub fn next_token(&mut self) -> (tok: Token)
        requires
            old(self).wf(),
        ensures
            final(self).wf(),
            final(self)@.input == old(self)@.input,
            tok@ == scan(old(self)@.input, old(self)@.position as int).token,
            final(self)@.position == scan(old(self)@.input, old(self)@.position as int).next,
            old(self)@.position <= final(self)@.position,
            tok.token_type != TokenType::EOF ==> old(self)@.position < final(self)@.position,
            tok.token_type == TokenType::EOF ==> tok@ == end_of_input() && final(self)@.position
                == final(self)@.input.len(),
            old(self)@.position == old(self)@.input.len() ==> tok@ == end_of_input()
                && final(self)@ == old(self)@,
    {
        proof {
            lemma_scan_advances(self@.input, self@.position as int);
            lemma_run_end(self@.input, self@.position as int, CharClass::Whitespace);
        }
        self.skip_whitespace();
        match self.ch {
            None => Token { token_type: TokenType::EOF, literal: String::new() },
            Some(ch) => match classify(ch) {
                CharClass::Symbol(kind) => {
                    let literal = self.slice(self.position, self.read_position);
                    self.read_char();
                    Token { token_type: kind, literal }
                },
                CharClass::Letter => {
                    let literal = self.read_identifier();
                    Token { token_type: lookup_ident(&literal), literal }
                },
                CharClass::Digit => {
                    let literal = self.read_number();
                    Token { token_type: TokenType::INT, literal }
                },
                _ => {
                    self.read_char();
                    Token { token_type: TokenType::Illegal, literal: String::new() }
                },
            },
        }
    }

    /// The characters of the text, in order. The cursor plays no part in it
    /// and is left alone.
    pub fn chars(&self) -> (all: Vec<char>)
        ensures
            all@ == self@.input,
    {
        let mut all: Vec<char> = Vec::new();
        for ch in it: self.input.as_str().chars()
            invariant
                it.seq() == self.input@,
                all@ == it.seq().take(it.index() as int),
        {
            all.push(ch);
        }
        all
    }
}

} // verus!
