use crate::character::{class_of, is_whitespace, CharClass};
use crate::token::{end_of_input, word_kind, TokenType, TokenView};
use vstd::prelude::*;

verus! {

/// Where the run of characters of one class that starts at `from` ends: the
/// first index at or after `from` that holds a character of another class, or
/// the length of the text if there is none.
pub open spec fn run_end(text: Seq<char>, from: int, class: CharClass) -> int
    decreases text.len() - from,
{
    if 0 <= from < text.len() && class_of(text[from]) == class {
        run_end(text, from + 1, class)
    } else {
        from
    }
}

/// One step of the lexer: the token it yields and where the cursor rests
/// afterwards.
pub struct Scanned {
    pub token: TokenView,
    pub next: int,
}

/// The token that is read with the cursor at `pos`, and the cursor after it.
///
/// Whitespace before the token is passed over. At the end of the text the
/// token is end of input and the cursor stays. Otherwise the class of the
/// first character decides: a symbol is a token by itself; a letter starts a
/// word, which runs as far as letters go and is a keyword or a name; a digit
/// starts a number, which runs as far as digits go; any other character is
/// passed over and reported as an illegal token without a literal.
pub open spec fn scan(text: Seq<char>, pos: int) -> Scanned {
    let start = run_end(text, pos, CharClass::Whitespace);
    if !(0 <= start < text.len()) {
        Scanned { token: end_of_input(), next: start }
    } else {
        match class_of(text[start]) {
            CharClass::Symbol(kind) => Scanned {
                token: TokenView { token_type: kind, literal: text.subrange(start, start + 1) },
                next: start + 1,
            },
            CharClass::Letter => {
                let end = run_end(text, start, CharClass::Letter);
                let word = text.subrange(start, end);
                Scanned { token: TokenView { token_type: word_kind(word), literal: word }, next: end }
            },
            CharClass::Digit => {
                let end = run_end(text, start, CharClass::Digit);
                Scanned {
                    token: TokenView {
                        token_type: TokenType::INT,
                        literal: text.subrange(start, end),
                    },
                    next: end,
                }
            },
            _ => Scanned {
                token: TokenView { token_type: TokenType::Illegal, literal: Seq::empty() },
                next: start + 1,
            },
        }
    }
}

/// Where the cursor rests after `calls` tokens have been read, one after the
/// other, starting with the cursor at `pos`.
pub open spec fn cursor_after(text: Seq<char>, pos: int, calls: nat) -> int
    decreases calls,
{
    if calls == 0 {
        pos
    } else {
        scan(text, cursor_after(text, pos, (calls - 1) as nat)).next
    }
}

/// The token that is read after `calls` tokens have been read before it.
pub open spec fn token_after(text: Seq<char>, pos: int, calls: nat) -> TokenView {
    scan(text, cursor_after(text, pos, calls)).token
}

/// The tokens that are read from `pos` on, up to but without the end-of-input
/// token.
pub open spec fn tokens_from(text: Seq<char>, pos: int) -> Seq<TokenView>
    decreases text.len() - pos,
{
    let step = scan(text, pos);
    if step.token.token_type == TokenType::EOF {
        Seq::empty()
    } else {
        proof {
            lemma_scan_advances(text, pos);
        }
        seq![step.token] + tokens_from(text, step.next)
    }
}

/// The literals of a sequence of tokens, joined in order.
pub open spec fn literal_text(tokens: Seq<TokenView>) -> Seq<char>
    decreases tokens.len(),
{
    if tokens.len() == 0 {
        Seq::empty()
    } else {
        tokens.first().literal + literal_text(tokens.drop_first())
    }
}

/// The test that keeps every character but whitespace.
pub open spec fn visible() -> spec_fn(char) -> bool {
    |c: char| !is_whitespace(c)
}

/// Whether every character of the text belongs to a token or is whitespace:
/// none is of class `Other`.
pub open spec fn all_classified(text: Seq<char>) -> bool {
    forall|i: int| 0 <= i < text.len() ==> class_of(#[trigger] text[i]) != CharClass::Other
}

/// A run ends at the least index at or after its start that does not hold a
/// character of the run's class.
pub proof fn lemma_run_end(text: Seq<char>, from: int, class: CharClass)
    requires
        0 <= from <= text.len(),
    ensures
        from <= run_end(text, from, class) <= text.len(),
        forall|i: int|
            from <= i < run_end(text, from, class) ==> class_of(#[trigger] text[i]) == class,
        run_end(text, from, class) < text.len() ==> class_of(
            text[run_end(text, from, class)],
        ) != class,
    decreases text.len() - from,
{
    if from < text.len() && class_of(text[from]) == class {
        lemma_run_end(text, from + 1, class);
    }
}

/// Reading a token never moves the cursor back nor past the end, and any
/// token but end of input moves it forward. End of input is read exactly when
/// only whitespace is left, and then the cursor comes to rest at the end.
pub proof fn lemma_scan_advances(text: Seq<char>, pos: int)
    ensures
        scan(text, pos).token.token_type != TokenType::EOF ==> 0 <= pos < scan(text, pos).next
            <= text.len(),
        0 <= pos <= text.len() ==> pos <= scan(text, pos).next <= text.len(),
        0 <= pos <= text.len() ==> (scan(text, pos).token.token_type == TokenType::EOF
            <==> run_end(text, pos, CharClass::Whitespace) == text.len()),
        0 <= pos <= text.len() && scan(text, pos).token.token_type == TokenType::EOF ==> scan(
            text,
            pos,
        ) == (Scanned { token: end_of_input(), next: text.len() as int }),
{
    let start = run_end(text, pos, CharClass::Whitespace);
    if 0 <= pos <= text.len() {
        lemma_run_end(text, pos, CharClass::Whitespace);
        if start < text.len() {
            lemma_run_end(text, start, CharClass::Letter);
            lemma_run_end(text, start, CharClass::Digit);
        }
    } else {
        assert(start == pos);
    }
}

/// The end of the text is where the lexer comes to rest: from any cursor, once
/// as many tokens have been read as there were characters left, the cursor is
/// at the end, the token read there is end of input, and reading it moves
/// nothing. So the request numbered `text.len() - pos`, counting from zero,
/// yields end of input at the latest, and so does every request after it.
pub proof fn lemma_end_of_input_is_reached(text: Seq<char>, pos: int, calls: nat)
    requires
        0 <= pos <= text.len(),
        calls >= text.len() - pos,
    ensures
        cursor_after(text, pos, calls) == text.len(),
        token_after(text, pos, calls) == end_of_input(),
        cursor_after(text, pos, calls + 1) == cursor_after(text, pos, calls),
{
    lemma_cursor_after(text, pos, calls);
    lemma_scan_advances(text, text.len() as int);
}

/// End of input is final: once it has been read, the cursor is at the end of
/// the text, and every later request yields the same token and leaves the
/// cursor there.
pub proof fn lemma_end_of_input_is_final(text: Seq<char>, pos: int, calls: nat)
    requires
        0 <= pos <= text.len(),
        scan(text, pos).token.token_type == TokenType::EOF,
    ensures
        scan(text, pos).token == end_of_input(),
        scan(text, pos).next == text.len(),
        token_after(text, scan(text, pos).next, calls) == end_of_input(),
        cursor_after(text, scan(text, pos).next, calls) == text.len(),
{
    lemma_scan_advances(text, pos);
    lemma_end_of_input_is_reached(text, text.len() as int, calls);
}

/// After `calls` tokens the cursor is within the text, and it has either
/// reached the end or moved on by at least one character for each token.
proof fn lemma_cursor_after(text: Seq<char>, pos: int, calls: nat)
    requires
        0 <= pos <= text.len(),
    ensures
        pos <= cursor_after(text, pos, calls) <= text.len(),
        cursor_after(text, pos, calls) == text.len() || cursor_after(text, pos, calls) >= pos
            + calls,
    decreases calls,
{
    if calls > 0 {
        lemma_cursor_after(text, pos, (calls - 1) as nat);
        lemma_scan_advances(text, cursor_after(text, pos, (calls - 1) as nat));
    }
}

/// No character is lost and none is read twice: where every character of the
/// text is whitespace or belongs to a token, the literals of the tokens read
/// from the start, joined in order, are the text without its whitespace.
pub proof fn lemma_literals_spell_text(text: Seq<char>)
    requires
        all_classified(text),
    ensures
        literal_text(tokens_from(text, 0)) == text.filter(visible()),
{
    lemma_literals_from(text, 0);
    assert(text.subrange(0, text.len() as int) == text);
}

/// The literals of the tokens read from `pos` on spell the rest of the text
/// without its whitespace.
proof fn lemma_literals_from(text: Seq<char>, pos: int)
    requires
        all_classified(text),
        0 <= pos <= text.len(),
    ensures
        literal_text(tokens_from(text, pos)) == text.subrange(pos, text.len() as int).filter(
            visible(),
        ),
    decreases text.len() - pos,
{
    let len = text.len() as int;
    let step = scan(text, pos);
    let start = run_end(text, pos, CharClass::Whitespace);
    lemma_scan_advances(text, pos);
    lemma_run_end(text, pos, CharClass::Whitespace);
    let blank = text.subrange(pos, start);
    lemma_filter_none(blank, visible());
    if start == len {
        assert(text.subrange(pos, len) == blank);
    } else {
        lemma_run_end(text, start, CharClass::Letter);
        lemma_run_end(text, start, CharClass::Digit);
        let literal = text.subrange(start, step.next);
        let rest = text.subrange(step.next, len);
        assert(step.token.literal == literal);
        lemma_filter_all(literal, visible());
        lemma_literals_from(text, step.next);
        let tokens = tokens_from(text, pos);
        assert(tokens.drop_first() == tokens_from(text, step.next));
        assert(text.subrange(pos, len) == blank + (literal + rest));
        Seq::filter_distributes_over_add(literal, rest, visible());
        Seq::filter_distributes_over_add(blank, literal + rest, visible());
    }
}

/// A filter drops a sequence whole if none of its items passes the test.
proof fn lemma_filter_none(s: Seq<char>, keep: spec_fn(char) -> bool)
    requires
        forall|i: int| 0 <= i < s.len() ==> !keep(#[trigger] s[i]),
    ensures
        s.filter(keep) == Seq::<char>::empty(),
    decreases s.len(),
{
    reveal(Seq::filter);
    if s.len() > 0 {
        lemma_filter_none(s.drop_last(), keep);
    }
}

/// A filter leaves a sequence as it is if all of its items pass the test.
proof fn lemma_filter_all(s: Seq<char>, keep: spec_fn(char) -> bool)
    requires
        forall|i: int| 0 <= i < s.len() ==> keep(#[trigger] s[i]),
    ensures
        s.filter(keep) == s,
    decreases s.len(),
{
    reveal(Seq::filter);
    if s.len() > 0 {
        lemma_filter_all(s.drop_last(), keep);
        assert(s.drop_last().push(s.last()) == s);
    }
}

} // verus!
