//! Tokens: the lexical units that name operators, identifiers and source positions.

use vstd::prelude::*;

verus! {

/// The kind of a token, with its payload where it has one.
///
/// A number is carried as the bit pattern of an IEEE 754 double.
pub enum TokenType {
    Number(u64),
    String(String),
    Name(String),
    // Operators
    Plus,
    Minus,
    Multiply,
    Divide,
    ParOpen,
    ParClose,
    Greater,
    Less,
    GreraterEqual,
    LessEqual,
    Equal,
    NotEqual,
    BrackOpen,
    BrackClose,
    // Control flow
    If,
    Else,
    Not,
    While,
    For,
    Or,
    And,
    // Variables and assignment
    Assign,
    FuncDeclare,
    Declare,
    Return,
    Print,
    Bool(bool),
    Separate,
    Eof,
    Comma,
    Nothing,
}

/// The mathematical value of a [`TokenType`]: text is a sequence of characters.
pub enum SpecTokenType {
    Number(u64),
    String(Seq<char>),
    Name(Seq<char>),
    Plus,
    Minus,
    Multiply,
    Divide,
    ParOpen,
    ParClose,
    Greater,
    Less,
    GreraterEqual,
    LessEqual,
    Equal,
    NotEqual,
    BrackOpen,
    BrackClose,
    If,
    Else,
    Not,
    While,
    For,
    Or,
    And,
    Assign,
    FuncDeclare,
    Declare,
    Return,
    Print,
    Bool(bool),
    Separate,
    Eof,
    Comma,
    Nothing,
}

impl View for TokenType {
    type V = SpecTokenType;

    open spec fn view(&self) -> SpecTokenType {
        match self {
            TokenType::Number(bits) => SpecTokenType::Number(*bits),
            TokenType::String(text) => SpecTokenType::String(text@),
            TokenType::Name(text) => SpecTokenType::Name(text@),
            TokenType::Plus => SpecTokenType::Plus,
            TokenType::Minus => SpecTokenType::Minus,
            TokenType::Multiply => SpecTokenType::Multiply,
            TokenType::Divide => SpecTokenType::Divide,
            TokenType::ParOpen => SpecTokenType::ParOpen,
            TokenType::ParClose => SpecTokenType::ParClose,
            TokenType::Greater => SpecTokenType::Greater,
            TokenType::Less => SpecTokenType::Less,
            TokenType::GreraterEqual => SpecTokenType::GreraterEqual,
            TokenType::LessEqual => SpecTokenType::LessEqual,
            TokenType::Equal => SpecTokenType::Equal,
            TokenType::NotEqual => SpecTokenType::NotEqual,
            TokenType::BrackOpen => SpecTokenType::BrackOpen,
            TokenType::BrackClose => SpecTokenType::BrackClose,
            TokenType::If => SpecTokenType::If,
            TokenType::Else => SpecTokenType::Else,
            TokenType::Not => SpecTokenType::Not,
            TokenType::While => SpecTokenType::While,
            TokenType::For => SpecTokenType::For,
            TokenType::Or => SpecTokenType::Or,
            TokenType::And => SpecTokenType::And,
            TokenType::Assign => SpecTokenType::Assign,
            TokenType::FuncDeclare => SpecTokenType::FuncDeclare,
            TokenType::Declare => SpecTokenType::Declare,
            TokenType::Return => SpecTokenType::Return,
            TokenType::Print => SpecTokenType::Print,
            TokenType::Bool(b) => SpecTokenType::Bool(*b),
            TokenType::Separate => SpecTokenType::Separate,
            TokenType::Eof => SpecTokenType::Eof,
            TokenType::Comma => SpecTokenType::Comma,
            TokenType::Nothing => SpecTokenType::Nothing,
        }
    }
}

impl Clone for TokenType {
    fn clone(&self) -> (copy: Self)
        ensures
            copy@ == self@,
    {
        match self {
            TokenType::Number(bits) => TokenType::Number(*bits),
            TokenType::String(text) => TokenType::String(text.clone()),
            TokenType::Name(text) => TokenType::Name(text.clone()),
            TokenType::Plus => TokenType::Plus,
            TokenType::Minus => TokenType::Minus,
            TokenType::Multiply => TokenType::Multiply,
            TokenType::Divide => TokenType::Divide,
            TokenType::ParOpen => TokenType::ParOpen,
            TokenType::ParClose => TokenType::ParClose,
            TokenType::Greater => TokenType::Greater,
            TokenType::Less => TokenType::Less,
            TokenType::GreraterEqual => TokenType::GreraterEqual,
            TokenType::LessEqual => TokenType::LessEqual,
            TokenType::Equal => TokenType::Equal,
            TokenType::NotEqual => TokenType::NotEqual,
            TokenType::BrackOpen => TokenType::BrackOpen,
            TokenType::BrackClose => TokenType::BrackClose,
            TokenType::If => TokenType::If,
            TokenType::Else => TokenType::Else,
            TokenType::Not => TokenType::Not,
            TokenType::While => TokenType::While,
            TokenType::For => TokenType::For,
            TokenType::Or => TokenType::Or,
            TokenType::And => TokenType::And,
            TokenType::Assign => TokenType::Assign,
            TokenType::FuncDeclare => TokenType::FuncDeclare,
            TokenType::Declare => TokenType::Declare,
            TokenType::Return => TokenType::Return,
            TokenType::Print => TokenType::Print,
            TokenType::Bool(b) => TokenType::Bool(*b),
            TokenType::Separate => TokenType::Separate,
            TokenType::Eof => TokenType::Eof,
            TokenType::Comma => TokenType::Comma,
            TokenType::Nothing => TokenType::Nothing,
        }
    }
}

/// A token: its kind, its text as written, and where it stands in the source.
pub struct Token {
    pub _type: TokenType,
    pub value: String,
    pub line: usize,
    pub column: usize,
}

/// The mathematical value of a [`Token`].
pub struct SpecToken {
    pub kind: SpecTokenType,
    pub value: Seq<char>,
    pub line: usize,
    pub column: usize,
}

impl View for Token {
    type V = SpecToken;

    open spec fn view(&self) -> SpecToken {
        SpecToken { kind: self._type@, value: self.value@, line: self.line, column: self.column }
    }
}

impl Clone for Token {
    fn clone(&self) -> (copy: Self)
        ensures
            copy@ == self@,
    {
        Token {
            _type: self._type.clone(),
            value: self.value.clone(),
            line: self.line,
            column: self.column,
        }
    }
}

/// The views of a sequence of tokens, in order.
pub open spec fn token_views(tokens: Seq<Token>) -> Seq<SpecToken> {
    tokens.map_values(|t: Token| t@)
}

/// The views of a list grow with the list.
pub proof fn lemma_token_views_push(tokens: Seq<Token>, token: Token)
    ensures
        token_views(tokens.push(token)) == token_views(tokens).push(token@),
{
    assert(token_views(tokens.push(token)) =~= token_views(tokens).push(token@));
}

/// No tokens have no views.
pub proof fn lemma_token_views_empty()
    ensures
        token_views(Seq::<Token>::empty()) == Seq::<SpecToken>::empty(),
{
    assert(token_views(Seq::<Token>::empty()) =~= Seq::<SpecToken>::empty());
}

/// Copies a list of tokens.
pub fn clone_tokens(tokens: &Vec<Token>) -> (copy: Vec<Token>)
    ensures
        token_views(copy@) == token_views(tokens@),
{
    let mut copy: Vec<Token> = Vec::new();
    let mut i: usize = 0;
    while i < tokens.len()
        invariant
            i <= tokens.len(),
            copy.len() == i,
            forall|j: int| 0 <= j < i ==> copy[j]@ == tokens[j]@,
        decreases tokens.len() - i,
    {
        copy.push(tokens[i].clone());
        i += 1;
    }
    assert(token_views(copy@) =~= token_views(tokens@));
    copy
}

} // verus!
