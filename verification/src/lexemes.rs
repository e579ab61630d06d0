//! What the lexer makes of a source text: its tokens, or the message of the
//! syntax error that stops it.
//!
//! A token's position is that of its first character, taken as a byte offset
//! into the text. The value of a numeral is left at zero: reading a numeral as
//! a number is the host's work, and the token's text holds the numeral.

use vstd::prelude::*;
use crate::token::{SpecToken, SpecTokenType};
use crate::chars::{is_whitespace, is_alphabetic, is_numeric, is_alphanumeric};
use crate::position::{line_number, column_number};
use crate::semantics::position;

verus! {

/// A run of characters that belong together: a word, a numeral, or the text
/// inside quotes.
#[derive(Clone, Copy, PartialEq, Eq, Debug, Structural)]
pub enum Run {
    Word,
    Number,
    Text,
}

impl Run {
    /// Whether a character goes on with the run.
    pub open spec fn keeps(self, c: char) -> bool {
        match self {
            Run::Word => is_alphanumeric(c) || c == '_',
            Run::Number => is_numeric(c) || c == '.',
            Run::Text => c != '"',
        }
    }
}

/// Where a run that begins at `from` ends: at the first character that does
/// not go on with it, or at the end of the text.
pub open spec fn run_end(chars: Seq<char>, from: nat, run: Run) -> nat
    decreases chars.len() - from,
{
    if from < chars.len() && run.keeps(chars[from as int]) {
        run_end(chars, from + 1, run)
    } else {
        from
    }
}

/// A run ends at or behind its beginning, and within the text if it began
/// there.
pub proof fn lemma_run_end_bounds(chars: Seq<char>, from: nat, run: Run)
    ensures
        from <= run_end(chars, from, run),
        from <= chars.len() ==> run_end(chars, from, run) <= chars.len(),
    decreases chars.len() - from,
{
    if from < chars.len() && run.keeps(chars[from as int]) {
        lemma_run_end_bounds(chars, from + 1, run);
    }
}

/// How many points a text holds.
pub open spec fn points(text: Seq<char>) -> nat
    decreases text.len(),
{
    if text.len() == 0 {
        0
    } else if text.last() == '.' {
        points(text.drop_last()) + 1
    } else {
        points(text.drop_last())
    }
}

/// The kind of a word: a keyword, a boolean, the absent value, or a name.
pub open spec fn word_kind(text: Seq<char>) -> SpecTokenType {
    if text == "if"@ {
        SpecTokenType::If
    } else if text == "else"@ {
        SpecTokenType::Else
    } else if text == "while"@ {
        SpecTokenType::While
    } else if text == "for"@ {
        SpecTokenType::For
    } else if text == "fn"@ {
        SpecTokenType::FuncDeclare
    } else if text == "let"@ {
        SpecTokenType::Declare
    } else if text == "return"@ {
        SpecTokenType::Return
    } else if text == "print"@ {
        SpecTokenType::Print
    } else if text == "or"@ {
        SpecTokenType::Or
    } else if text == "and"@ {
        SpecTokenType::And
    } else if text == "true"@ {
        SpecTokenType::Bool(true)
    } else if text == "false"@ {
        SpecTokenType::Bool(false)
    } else if text == "none"@ {
        SpecTokenType::Nothing
    } else {
        SpecTokenType::Name(text)
    }
}

/// The kind and the text of the token that a single character is, if it is
/// one.
pub open spec fn single(c: char) -> Option<(SpecTokenType, Seq<char>)> {
    if c == '*' {
        Some((SpecTokenType::Multiply, "*"@))
    } else if c == '/' {
        Some((SpecTokenType::Divide, "/"@))
    } else if c == '(' {
        Some((SpecTokenType::ParOpen, "("@))
    } else if c == ')' {
        Some((SpecTokenType::ParClose, ")"@))
    } else if c == '{' {
        Some((SpecTokenType::BrackOpen, "{"@))
    } else if c == '}' {
        Some((SpecTokenType::BrackClose, "}"@))
    } else if c == '+' {
        Some((SpecTokenType::Plus, "+"@))
    } else if c == '-' {
        Some((SpecTokenType::Minus, "-"@))
    } else if c == ';' {
        Some((SpecTokenType::Separate, ";"@))
    } else if c == ',' {
        Some((SpecTokenType::Comma, ","@))
    } else {
        None
    }
}

/// The kinds and the texts of the two tokens that a character begins, alone
/// and with `=` behind it, if it begins such tokens.
pub open spec fn double(
    c: char,
) -> Option<((SpecTokenType, Seq<char>), (SpecTokenType, Seq<char>))> {
    if c == '>' {
        Some(((SpecTokenType::Greater, ">"@), (SpecTokenType::GreraterEqual, ">="@)))
    } else if c == '<' {
        Some(((SpecTokenType::Less, "<"@), (SpecTokenType::LessEqual, "<="@)))
    } else if c == '=' {
        Some(((SpecTokenType::Assign, "="@), (SpecTokenType::Equal, "=="@)))
    } else if c == '!' {
        Some(((SpecTokenType::Not, "!"@), (SpecTokenType::NotEqual, "!="@)))
    } else {
        None
    }
}

/// A token of a kind and a text at an offset.
pub open spec fn lexeme(
    kind: SpecTokenType,
    value: Seq<char>,
    bytes: Seq<u8>,
    at: nat,
) -> SpecToken {
    SpecToken {
        kind,
        value,
        line: line_number(bytes, at) as usize,
        column: column_number(bytes, at) as usize,
    }
}

/// A message with the position of an offset behind it.
pub open spec fn message_at(message: Seq<char>, bytes: Seq<u8>, at: nat) -> Seq<char> {
    message + position(line_number(bytes, at) as usize, column_number(bytes, at) as usize)
}

/// The message for a character that begins no token.
pub open spec fn unknown_character_message(c: char) -> Seq<char> {
    "Unknown character '"@.push(c) + "'"@
}

/// A token before the tokens of the rest.
pub open spec fn before(token: SpecToken, rest: Result<Seq<SpecToken>, Seq<char>>) -> Result<
    Seq<SpecToken>,
    Seq<char>,
> {
    match rest {
        Ok(tokens) => Ok(seq![token] + tokens),
        Err(message) => Err(message),
    }
}

/// The tokens of the text from an offset on, with the token that ends the
/// input last. The text is given as its characters, from which the tokens are
/// cut, and as its bytes, by which positions are counted.
pub open spec fn scan(chars: Seq<char>, bytes: Seq<u8>, from: nat) -> Result<
    Seq<SpecToken>,
    Seq<char>,
>
    decreases chars.len() - from,
{
    if from >= chars.len() {
        Ok(seq![lexeme(SpecTokenType::Eof, "<eof>"@, bytes, from)])
    } else {
        let c = chars[from as int];
        if is_whitespace(c) {
            scan(chars, bytes, from + 1)
        } else if is_alphabetic(c) {
            let end = run_end(chars, from + 1, Run::Word);
            let text = chars.subrange(from as int, end as int);
            proof {
                lemma_run_end_bounds(chars, from + 1, Run::Word);
            }
            before(lexeme(word_kind(text), text, bytes, from), scan(chars, bytes, end))
        } else if is_numeric(c) {
            let end = run_end(chars, from + 1, Run::Number);
            let text = chars.subrange(from as int, end as int);
            proof {
                lemma_run_end_bounds(chars, from + 1, Run::Number);
            }
            if points(text) > 1 {
                Err(message_at("Invalid float."@, bytes, from))
            } else {
                before(lexeme(SpecTokenType::Number(0), text, bytes, from), scan(chars, bytes, end))
            }
        } else if c == '"' {
            let end = run_end(chars, from + 1, Run::Text);
            let text = chars.subrange((from + 1) as int, end as int);
            proof {
                lemma_run_end_bounds(chars, from + 1, Run::Text);
            }
            if end >= chars.len() {
                Err(message_at("Unterminated string."@, bytes, from))
            } else {
                before(
                    lexeme(SpecTokenType::String(text), text, bytes, from),
                    scan(chars, bytes, end + 1),
                )
            }
        } else if single(c) is Some {
            before(
                lexeme(single(c)->Some_0.0, single(c)->Some_0.1, bytes, from),
                scan(chars, bytes, from + 1),
            )
        } else if double(c) is Some {
            if from + 1 < chars.len() && chars[(from + 1) as int] == '=' {
                before(
                    lexeme(double(c)->Some_0.1.0, double(c)->Some_0.1.1, bytes, from),
                    scan(chars, bytes, from + 2),
                )
            } else {
                before(
                    lexeme(double(c)->Some_0.0.0, double(c)->Some_0.0.1, bytes, from),
                    scan(chars, bytes, from + 1),
                )
            }
        } else {
            Err(message_at(unknown_character_message(c), bytes, from))
        }
    }
}

/// Whether a sequence of tokens ends with the token that ends the input, and
/// holds no other such token.
pub open spec fn ends_once(tokens: Seq<SpecToken>) -> bool {
    &&& tokens.len() > 0
    &&& tokens.last().kind is Eof
    &&& forall|i: int| 0 <= i < tokens.len() - 1 ==> !((#[trigger] tokens[i]).kind is Eof)
}

/// The tokens of a text end with the token that ends the input, which stands
/// nowhere else among them: a parser that reads them comes to an end, and only
/// at the end of the text.
pub proof fn law_tokens_end_once(chars: Seq<char>, bytes: Seq<u8>, from: nat)
    ensures
        scan(chars, bytes, from) is Ok ==> ends_once(scan(chars, bytes, from)->Ok_0),
    decreases chars.len() - from,
{
    if from < chars.len() {
        let c = chars[from as int];
        if is_whitespace(c) {
            law_tokens_end_once(chars, bytes, from + 1);
        } else if is_alphabetic(c) {
            let end = run_end(chars, from + 1, Run::Word);
            let text = chars.subrange(from as int, end as int);
            lemma_run_end_bounds(chars, from + 1, Run::Word);
            law_tokens_end_once(chars, bytes, end);
            lemma_before_ends_once(
                lexeme(word_kind(text), text, bytes, from),
                scan(chars, bytes, end),
            );
        } else if is_numeric(c) {
            let end = run_end(chars, from + 1, Run::Number);
            let text = chars.subrange(from as int, end as int);
            lemma_run_end_bounds(chars, from + 1, Run::Number);
            law_tokens_end_once(chars, bytes, end);
            lemma_before_ends_once(
                lexeme(SpecTokenType::Number(0), text, bytes, from),
                scan(chars, bytes, end),
            );
        } else if c == '"' {
            let end = run_end(chars, from + 1, Run::Text);
            let text = chars.subrange((from + 1) as int, end as int);
            lemma_run_end_bounds(chars, from + 1, Run::Text);
            if end < chars.len() {
                law_tokens_end_once(chars, bytes, end + 1);
                lemma_before_ends_once(
                    lexeme(SpecTokenType::String(text), text, bytes, from),
                    scan(chars, bytes, end + 1),
                );
            }
        } else if single(c) is Some {
            law_tokens_end_once(chars, bytes, from + 1);
            lemma_before_ends_once(
                lexeme(single(c)->Some_0.0, single(c)->Some_0.1, bytes, from),
                scan(chars, bytes, from + 1),
            );
        } else if double(c) is Some {
            if from + 1 < chars.len() && chars[(from + 1) as int] == '=' {
                law_tokens_end_once(chars, bytes, from + 2);
                lemma_before_ends_once(
                    lexeme(double(c)->Some_0.1.0, double(c)->Some_0.1.1, bytes, from),
                    scan(chars, bytes, from + 2),
                );
            } else {
                law_tokens_end_once(chars, bytes, from + 1);
                lemma_before_ends_once(
                    lexeme(double(c)->Some_0.0.0, double(c)->Some_0.0.1, bytes, from),
                    scan(chars, bytes, from + 1),
                );
            }
        }
    }
}

proof fn lemma_before_ends_once(token: SpecToken, rest: Result<Seq<SpecToken>, Seq<char>>)
    requires
        !(token.kind is Eof),
        rest is Ok ==> ends_once(rest->Ok_0),
    ensures
        before(token, rest) is Ok ==> ends_once(before(token, rest)->Ok_0),
{
    if rest is Ok {
        let all = seq![token] + rest->Ok_0;
        assert(all.last() == rest->Ok_0.last());
        assert forall|i: int| 0 <= i < all.len() - 1 implies !((#[trigger] all[i]).kind is Eof) by {
            if i > 0 {
                assert(all[i] == rest->Ok_0[i - 1]);
            }
        }
    }
}

} // verus!
