//! The lexer: from a source text to its tokens.

use vstd::prelude::*;
use vstd::string::{StringExecFns, StringSliceAdditionalSpecFns};
use vstd::utf8::encode_utf8;
use vstd::std_specs::iter::IteratorSpec;
use line_col::LineColLookup;
use crate::token::{
    Token, TokenType, SpecToken, SpecTokenType, token_views, lemma_token_views_push,
    lemma_token_views_empty,
};
use crate::error::{Error, SpecError};
use crate::chars::{whitespace, alphabetic, numeric, alphanumeric, push_char};
use crate::position::{lookup_source, new_lookup, locate, lemma_bytes_cover_chars};
use crate::messages::position_text;
use crate::lexemes;
use crate::lexemes::Run;

verus! {

broadcast use vstd::string::group_string_axioms;

/// The tokens so far before the tokens of the rest.
pub open spec fn joined(tokens: Seq<SpecToken>, rest: Result<Seq<SpecToken>, Seq<char>>) -> Result<
    Seq<SpecToken>,
    Seq<char>,
> {
    match rest {
        Ok(more) => Ok(tokens + more),
        Err(message) => Err(message),
    }
}

/// Whether a result is that of a scan: the tokens, or a syntax error with the
/// message.
pub open spec fn scanned(
    outcome: Result<Seq<SpecToken>, Seq<char>>,
    result: Result<Vec<Token>, Error>,
) -> bool {
    match outcome {
        Ok(tokens) => result is Ok && token_views(result->Ok_0@) == tokens,
        Err(message) => result is Err && result->Err_0@ == SpecError::Syntax(message),
    }
}

/// Whether a run goes on with a character.
fn keeps(run: Run, c: char) -> (kept: bool)
    ensures
        kept == run.keeps(c),
{
    match run {
        Run::Word => alphanumeric(c) || c == '_',
        Run::Number => numeric(c) || c == '.',
        Run::Text => c != '"',
    }
}

/// Whether a text is a given word.
fn is_word(text: &String, word: &str) -> (same: bool)
    ensures
        same == (text@ == word@),
{
    *text == String::from_str(word)
}

/// The kind of a word.
fn word_kind(text: &String) -> (kind: TokenType)
    ensures
        kind@ == lexemes::word_kind(text@),
{
    if is_word(text, "if") {
        TokenType::If
    } else if is_word(text, "else") {
        TokenType::Else
    } else if is_word(text, "while") {
        TokenType::While
    } else if is_word(text, "for") {
        TokenType::For
    } else if is_word(text, "fn") {
        TokenType::FuncDeclare
    } else if is_word(text, "let") {
        TokenType::Declare
    } else if is_word(text, "return") {
        TokenType::Return
    } else if is_word(text, "print") {
        TokenType::Print
    } else if is_word(text, "or") {
        TokenType::Or
    } else if is_word(text, "and") {
        TokenType::And
    } else if is_word(text, "true") {
        TokenType::Bool(true)
    } else if is_word(text, "false") {
        TokenType::Bool(false)
    } else if is_word(text, "none") {
        TokenType::Nothing
    } else {
        TokenType::Name(text.clone())
    }
}

/// The kind and the text of the token that a single character is.
fn single(c: char) -> (found: Option<(TokenType, String)>)
    ensures
        match found {
            Some(pair) => lexemes::single(c) == Some((pair.0@, pair.1@)),
            None => lexemes::single(c) is None,
        },
{
    if c == '*' {
        Some((TokenType::Multiply, String::from_str("*")))
    } else if c == '/' {
        Some((TokenType::Divide, String::from_str("/")))
    } else if c == '(' {
        Some((TokenType::ParOpen, String::from_str("(")))
    } else if c == ')' {
        Some((TokenType::ParClose, String::from_str(")")))
    } else if c == '{' {
        Some((TokenType::BrackOpen, String::from_str("{")))
    } else if c == '}' {
        Some((TokenType::BrackClose, String::from_str("}")))
    } else if c == '+' {
        Some((TokenType::Plus, String::from_str("+")))
    } else if c == '-' {
        Some((TokenType::Minus, String::from_str("-")))
    } else if c == ';' {
        Some((TokenType::Separate, String::from_str(";")))
    } else if c == ',' {
        Some((TokenType::Comma, String::from_str(",")))
    } else {
        None
    }
}

/// The kind and the text of the token that a character begins, alone or with
/// `=` behind it.
fn double(c: char, with_equal: bool) -> (found: Option<(TokenType, String)>)
    ensures
        match found {
            Some(pair) => lexemes::double(c) is Some && (if with_equal {
                lexemes::double(c)->Some_0.1
            } else {
                lexemes::double(c)->Some_0.0
            }) == (pair.0@, pair.1@),
            None => lexemes::double(c) is None,
        },
{
    if c == '>' {
        if with_equal {
            Some((TokenType::GreraterEqual, String::from_str(">=")))
        } else {
            Some((TokenType::Greater, String::from_str(">")))
        }
    } else if c == '<' {
        if with_equal {
            Some((TokenType::LessEqual, String::from_str("<=")))
        } else {
            Some((TokenType::Less, String::from_str("<")))
        }
    } else if c == '=' {
        if with_equal {
            Some((TokenType::Equal, String::from_str("==")))
        } else {
            Some((TokenType::Assign, String::from_str("=")))
        }
    } else if c == '!' {
        if with_equal {
            Some((TokenType::NotEqual, String::from_str("!=")))
        } else {
            Some((TokenType::Not, String::from_str("!")))
        }
    } else {
        None
    }
}

/// The lexer: the characters of the source text, the offset of the current
/// one, and the table by which offsets become lines and columns.
pub struct Lexer<'a> {
    content: Vec<char>,
    index: usize,
    lc_lookup: LineColLookup<'a>,
}

impl<'a> Lexer<'a> {
    #[verifier::type_invariant]
    spec fn well_formed(self) -> bool {
        self.index <= self.content@.len() && lookup_source(&self.lc_lookup) == encode_utf8(
            self.content@,
        )
    }

    /// The characters of the source text.
    pub closed spec fn chars(&self) -> Seq<char> {
        self.content@
    }

    /// The bytes of the source text, by which positions are counted.
    pub closed spec fn bytes(&self) -> Seq<u8> {
        encode_utf8(self.content@)
    }

    /// The offset of the current character.
    pub closed spec fn offset(&self) -> nat {
        self.index as nat
    }

    /// A lexer at the start of a source text.
    pub fn new(source: &'a String) -> (lexer: Self)
        ensures
            lexer.chars() == source@,
            lexer.bytes() == encode_utf8(source@),
            lexer.offset() == 0,
    {
        let mut content: Vec<char> = Vec::new();
        for c in rest: source.as_str().chars()
            invariant
                rest.seq() == source@,
                content@ == rest.seq().take(rest.index() as int),
        {
            content.push(c);
            assert(content@ =~= rest.seq().take(rest.index() + 1));
        }
        assert(content@ =~= source@);
        Lexer { content, index: 0, lc_lookup: new_lookup(source.as_str()) }
    }

    /// The line and the column of an offset.
    fn place(&self, at: usize) -> (found: (usize, usize))
        requires
            at <= self.chars().len(),
        ensures
            found.0 == crate::position::line_number(self.bytes(), at as nat),
            found.1 == crate::position::column_number(self.bytes(), at as nat),
    {
        proof {
            use_type_invariant(self);
            lemma_bytes_cover_chars(self.content@);
        }
        locate(&self.lc_lookup, at)
    }

    /// Moves to the next character, if there is one.
    fn increment(&mut self)
        ensures
            final(self).chars() == old(self).chars(),
            final(self).bytes() == old(self).bytes(),
            final(self).offset() == if old(self).offset() < old(self).chars().len() {
                old(self).offset() + 1
            } else {
                old(self).offset()
            },
    {
        proof {
            use_type_invariant(&*self);
        }
        if self.index < self.content.len() {
            self.index += 1;
        }
    }

    /// The character behind the current one, if there is one.
    fn peek(&self) -> (found: Option<char>)
        ensures
            found == if self.offset() + 1 < self.chars().len() {
                Some(self.chars()[(self.offset() + 1) as int])
            } else {
                None::<char>
            },
    {
        proof {
            use_type_invariant(self);
        }
        if self.index < self.content.len() && self.index + 1 < self.content.len() {
            Some(self.content[self.index + 1])
        } else {
            None
        }
    }

    /// Whether `=` stands behind the current character.
    fn is_peek_equal(&self) -> (equal: bool)
        ensures
            equal == (self.offset() + 1 < self.chars().len() && self.chars()[(self.offset() + 1) as int]
                == '='),
    {
        match self.peek() {
            Some(c) => c == '=',
            None => false,
        }
    }

    /// Takes the characters that go on with a run from the current one on,
    /// and adds them to a text; `count` is the number of points in the text.
    fn extend(&mut self, text: &mut String, run: Run, count: usize) -> (points: usize)
        requires
            count == lexemes::points(old(text)@),
            count <= old(self).offset(),
        ensures
            final(self).chars() == old(self).chars(),
            final(self).bytes() == old(self).bytes(),
            final(self).offset() == lexemes::run_end(old(self).chars(), old(self).offset(), run),
            old(self).offset() <= final(self).offset() <= old(self).chars().len(),
            final(text)@ == old(text)@ + old(self).chars().subrange(
                old(self).offset() as int,
                final(self).offset() as int,
            ),
            points == lexemes::points(final(text)@),
    {
        proof {
            use_type_invariant(&*self);
        }
        let mut points = count;
        assert(text@ =~= old(text)@ + self.content@.subrange(self.index as int, self.index as int));
        while self.index < self.content.len() && keeps(run, self.content[self.index])
            invariant
                self.content == old(self).content,
                self.lc_lookup == old(self).lc_lookup,
                lookup_source(&self.lc_lookup) == encode_utf8(self.content@),
                old(self).index <= self.index <= self.content@.len(),
                lexemes::run_end(self.content@, old(self).index as nat, run) == lexemes::run_end(
                    self.content@,
                    self.index as nat,
                    run,
                ),
                text@ == old(text)@ + self.content@.subrange(
                    old(self).index as int,
                    self.index as int,
                ),
                points == lexemes::points(text@),
                points <= self.index,
            decreases self.content@.len() - self.index,
        {
            let c = self.content[self.index];
            let ghost before = text@;
            push_char(text, c);
            assert(text@.drop_last() =~= before);
            if c == '.' {
                points += 1;
            }
            self.index += 1;
            assert(text@ =~= old(text)@ + self.content@.subrange(
                old(self).index as int,
                self.index as int,
            ));
        }
        points
    }

    /// Reads a word that begins at the current character: a keyword or a name.
    fn get_word(&mut self, line: usize, column: usize) -> (token: Token)
        requires
            old(self).offset() < old(self).chars().len(),
        ensures
            final(self).chars() == old(self).chars(),
            final(self).bytes() == old(self).bytes(),
            final(self).offset() == lexemes::run_end(
                old(self).chars(),
                old(self).offset() + 1,
                Run::Word,
            ),
            old(self).offset() < final(self).offset() <= old(self).chars().len(),
            token@ == (SpecToken {
                kind: lexemes::word_kind(
                    old(self).chars().subrange(
                        old(self).offset() as int,
                        final(self).offset() as int,
                    ),
                ),
                value: old(self).chars().subrange(
                    old(self).offset() as int,
                    final(self).offset() as int,
                ),
                line,
                column,
            }),
    {
        proof {
            use_type_invariant(&*self);
        }
        assert(self.index < self.content.len());
        let c = self.content[self.index];
        let mut word = String::new();
        push_char(&mut word, c);
        assert(word@.drop_last() =~= Seq::<char>::empty());
        assert(lexemes::points(Seq::<char>::empty()) == 0);
        let count: usize = if c == '.' {
            1
        } else {
            0
        };
        self.index += 1;
        self.extend(&mut word, Run::Word, count);
        assert(word@ =~= self.content@.subrange(old(self).index as int, self.index as int));
        Token { _type: word_kind(&word), value: word, line, column }
    }

    /// Reads a numeral that begins at the current character. More than one
    /// point makes it invalid. The token's value is left at zero.
    fn get_number(&mut self, line: usize, column: usize) -> (result: Result<Token, Error>)
        requires
            old(self).offset() < old(self).chars().len(),
        ensures
            final(self).chars() == old(self).chars(),
            final(self).bytes() == old(self).bytes(),
            final(self).offset() == lexemes::run_end(
                old(self).chars(),
                old(self).offset() + 1,
                Run::Number,
            ),
            old(self).offset() < final(self).offset() <= old(self).chars().len(),
            ({
                let text = old(self).chars().subrange(
                    old(self).offset() as int,
                    final(self).offset() as int,
                );
                if lexemes::points(text) > 1 {
                    result is Err && result->Err_0@ == SpecError::Syntax(
                        "Invalid float."@ + crate::semantics::position(line, column),
                    )
                } else {
                    result is Ok && result->Ok_0@ == (SpecToken {
                        kind: SpecTokenType::Number(0),
                        value: text,
                        line,
                        column,
                    })
                }
            }),
    {
        proof {
            use_type_invariant(&*self);
        }
        assert(self.index < self.content.len());
        let c = self.content[self.index];
        let mut number = String::new();
        push_char(&mut number, c);
        assert(number@.drop_last() =~= Seq::<char>::empty());
        assert(lexemes::points(Seq::<char>::empty()) == 0);
        let count: usize = if c == '.' {
            1
        } else {
            0
        };
        self.index += 1;
        let points = self.extend(&mut number, Run::Number, count);
        assert(number@ =~= self.content@.subrange(old(self).index as int, self.index as int));
        if points > 1 {
            let mut message = String::from_str("Invalid float.");
            message.append(position_text(line, column).as_str());
            return Err(Error::Syntax(message));
        }
        Ok(Token { _type: TokenType::Number(0), value: number, line, column })
    }

    /// Reads the text of a string behind its opening quote, up to the
    /// closing quote, which must come.
    fn get_str(&mut self, line: usize, column: usize) -> (result: Result<Token, Error>)
        requires
            old(self).offset() <= old(self).chars().len(),
        ensures
            final(self).chars() == old(self).chars(),
            final(self).bytes() == old(self).bytes(),
            final(self).offset() == lexemes::run_end(
                old(self).chars(),
                old(self).offset(),
                Run::Text,
            ),
            old(self).offset() <= final(self).offset() <= old(self).chars().len(),
            ({
                let text = old(self).chars().subrange(
                    old(self).offset() as int,
                    final(self).offset() as int,
                );
                if final(self).offset() >= old(self).chars().len() {
                    result is Err && result->Err_0@ == SpecError::Syntax(
                        "Unterminated string."@ + crate::semantics::position(line, column),
                    )
                } else {
                    result is Ok && result->Ok_0@ == (SpecToken {
                        kind: SpecTokenType::String(text),
                        value: text,
                        line,
                        column,
                    })
                }
            }),
    {
        proof {
            use_type_invariant(&*self);
        }
        let mut string = String::new();
        assert(lexemes::points(string@) == 0);
        self.extend(&mut string, Run::Text, 0);
        assert(string@ =~= self.content@.subrange(old(self).index as int, self.index as int));
        if self.index >= self.content.len() {
            let mut message = String::from_str("Unterminated string.");
            message.append(position_text(line, column).as_str());
            return Err(Error::Syntax(message));
        }
        Ok(Token { _type: TokenType::String(string.clone()), value: string, line, column })
    }

    /// Cuts the rest of the source text into tokens; the token that ends the
    /// input comes last. The value of a numeral is left at zero.
    pub fn tokenize(&mut self) -> (result: Result<Vec<Token>, Error>)
        ensures
            final(self).chars() == old(self).chars(),
            final(self).bytes() == old(self).bytes(),
            result is Ok ==> final(self).offset() == old(self).chars().len(),
            scanned(lexemes::scan(old(self).chars(), old(self).bytes(), old(self).offset()), result),
    {
        proof {
            use_type_invariant(&*self);
        }
        let mut tokens: Vec<Token> = Vec::new();
        proof {
            lemma_token_views_empty();
            let rest = lexemes::scan(self.chars(), self.bytes(), self.offset());
            assert(Seq::<SpecToken>::empty() + rest->Ok_0 =~= rest->Ok_0);
        }
        while self.index < self.content.len()
            invariant
                self.chars() == old(self).chars(),
                self.bytes() == old(self).bytes(),
                self.index <= self.content@.len(),
                lexemes::scan(old(self).chars(), old(self).bytes(), old(self).offset()) == joined(
                    token_views(tokens@),
                    lexemes::scan(self.chars(), self.bytes(), self.offset()),
                ),
            decreases self.content@.len() - self.index,
        {
            let c = self.content[self.index];
            let (line, column) = self.place(self.index);
            let ghost from = self.offset();
            let ghost chars = self.chars();
            let ghost bytes = self.bytes();
            let ghost done = token_views(tokens@);
            if whitespace(c) {
                self.increment();
            } else if alphabetic(c) {
                let token = self.get_word(line, column);
                proof {
                    lemma_token_views_push(tokens@, token);
                    lemma_joined(done, token@, lexemes::scan(chars, bytes, self.offset()));
                }
                tokens.push(token);
            } else if numeric(c) {
                match self.get_number(line, column) {
                    Ok(token) => {
                        proof {
                            lemma_token_views_push(tokens@, token);
                            lemma_joined(done, token@, lexemes::scan(chars, bytes, self.offset()));
                        }
                        tokens.push(token);
                    },
                    Err(error) => {
                        return Err(error);
                    },
                }
            } else if c == '"' {
                self.increment();
                match self.get_str(line, column) {
                    Ok(token) => {
                        self.increment();
                        proof {
                            lemma_token_views_push(tokens@, token);
                            lemma_joined(done, token@, lexemes::scan(chars, bytes, self.offset()));
                        }
                        tokens.push(token);
                    },
                    Err(error) => {
                        return Err(error);
                    },
                }
            } else {
                match single(c) {
                    Some((kind, value)) => {
                        let token = Token { _type: kind, value, line, column };
                        self.increment();
                        proof {
                            lemma_token_views_push(tokens@, token);
                            lemma_joined(done, token@, lexemes::scan(chars, bytes, self.offset()));
                        }
                        tokens.push(token);
                    },
                    None => {
                        let with_equal = self.is_peek_equal();
                        match double(c, with_equal) {
                            Some((kind, value)) => {
                                let token = Token { _type: kind, value, line, column };
                                self.increment();
                                if with_equal {
                                    self.increment();
                                }
                                proof {
                                    lemma_token_views_push(tokens@, token);
                                    lemma_joined(
                                        done,
                                        token@,
                                        lexemes::scan(chars, bytes, self.offset()),
                                    );
                                }
                                tokens.push(token);
                            },
                            None => {
                                let mut message = String::from_str("Unknown character '");
                                push_char(&mut message, c);
                                message.append("'");
                                message.append(position_text(line, column).as_str());
                                return Err(Error::Syntax(message));
                            },
                        }
                    },
                }
            }
        }
        let (line, column) = self.place(self.index);
        let end = Token { _type: TokenType::Eof, value: String::from_str("<eof>"), line, column };
        proof {
            lemma_token_views_push(tokens@, end);
            assert(token_views(tokens@).push(end@) =~= token_views(tokens@) + seq![end@]);
        }
        tokens.push(end);
        Ok(tokens)
    }
}

/// A token joins the tokens before it as it stands before the tokens behind
/// it.
proof fn lemma_joined(
    done: Seq<SpecToken>,
    token: SpecToken,
    rest: Result<Seq<SpecToken>, Seq<char>>,
)
    ensures
        joined(done, lexemes::before(token, rest)) == joined(done.push(token), rest),
{
    match rest {
        Ok(more) => {
            assert(done + (seq![token] + more) =~= done.push(token) + more);
        },
        Err(_) => {},
    }
}

/// The message for a numeral that cannot be read as a number.
pub open spec fn invalid_number_message(token: SpecToken) -> Seq<char> {
    "Invalid number '"@ + token.value + "'"@ + crate::semantics::position(token.line, token.column)
}

/// Whether `after` is `before` with its numeral read: a token that is no
/// numeral is unchanged, and a numeral carries a value that `read` gave for its
/// text.
pub open spec fn numeral_read<F: Fn(&String) -> Option<u64>>(
    read: F,
    before: Token,
    after: Token,
) -> bool {
    if before@.kind is Number {
        &&& after@.kind is Number
        &&& after@.value == before@.value
        &&& after@.line == before@.line
        &&& after@.column == before@.column
        &&& call_ensures(read, (&before.value,), Some(after@.kind->Number_0))
    } else {
        after@ == before@
    }
}

/// Whether a token is a numeral that `read` may refuse.
pub open spec fn numeral_refused<F: Fn(&String) -> Option<u64>>(read: F, token: Token) -> bool {
    token@.kind is Number && call_ensures(read, (&token.value,), None::<u64>)
}

/// Whether a token is no numeral, or one for which `read` may give a value.
pub open spec fn numeral_accepted<F: Fn(&String) -> Option<u64>>(read: F, token: Token) -> bool {
    token@.kind is Number ==> exists|bits: u64| call_ensures(read, (&token.value,), Some(bits))
}

/// Reads the numerals of a list of tokens: each numeral, whose value the lexer
/// has left at zero, gets the value that `read` gives for its text. Reading a
/// numeral as a number is work on doubles, which the caller does; this function
/// decides which tokens are read, in which order, and what follows. The tokens
/// are read from the first on; the first numeral that `read` refuses ends the
/// reading with a syntax error that names it. What `read` gives may differ from
/// call to call, so the contract speaks of what it may give.
pub fn numerals<F: Fn(&String) -> Option<u64>>(tokens: Vec<Token>, read: F) -> (result: Result<
    Vec<Token>,
    Error,
>)
    requires
        forall|text: &String| call_requires(read, (text,)),
    ensures
        match result {
            Ok(out) => {
                &&& out@.len() == tokens@.len()
                &&& forall|i: int|
                    0 <= i < tokens@.len() ==> numeral_read(read, tokens@[i], #[trigger] out@[i])
            },
            Err(error) => exists|i: int|
                {
                    &&& 0 <= i < tokens@.len()
                    &&& numeral_refused(read, #[trigger] tokens@[i])
                    &&& error@ == SpecError::Syntax(invalid_number_message(tokens@[i]@))
                    &&& forall|j: int| 0 <= j < i ==> numeral_accepted(read, #[trigger] tokens@[j])
                },
        },
{
    let mut out: Vec<Token> = Vec::new();
    let mut i: usize = 0;
    while i < tokens.len()
        invariant
            i <= tokens.len(),
            out@.len() == i,
            forall|text: &String| call_requires(read, (text,)),
            forall|k: int| 0 <= k < i ==> numeral_read(read, tokens@[k], #[trigger] out@[k]),
            forall|j: int| 0 <= j < i ==> numeral_accepted(read, #[trigger] tokens@[j]),
        decreases tokens.len() - i,
    {
        let token = &tokens[i];
        match token._type {
            TokenType::Number(_) => {
                match read(&token.value) {
                    Some(bits) => {
                        out.push(
                            Token {
                                _type: TokenType::Number(bits),
                                value: token.value.clone(),
                                line: token.line,
                                column: token.column,
                            },
                        );
                    },
                    None => {
                        let mut message = String::from_str("Invalid number '");
                        message.append(token.value.as_str());
                        message.append("'");
                        message.append(position_text(token.line, token.column).as_str());
                        return Err(Error::Syntax(message));
                    },
                }
            },
            _ => {
                out.push(token.clone());
            },
        }
        i += 1;
    }
    Ok(out)
}

} // verus!
