//! The parser: from tokens to the syntax tree, by recursive descent.

use vstd::prelude::*;
use vstd::string::StringExecFns;
use crate::ast::{
    Node, Literal, SpecNode, node_views, lemma_node_views_push, lemma_node_views_empty,
};
use crate::token::{
    Token, TokenType, SpecToken, token_views, lemma_token_views_push, lemma_token_views_empty,
};
use crate::error::{Error, SpecError};
use crate::messages::position_text;
use crate::grammar;
use crate::grammar::{SpecParser, Parsed, Level};
use crate::grammar_lemmas;

verus! {

/// Whether a state and a result are those of a parse that gives a node.
pub open spec fn produces(
    outcome: Parsed<SpecNode>,
    state: SpecParser,
    result: Result<Node, Error>,
) -> bool {
    &&& outcome.state == state
    &&& match outcome.result {
        Ok(node) => result is Ok && result->Ok_0@ == node,
        Err(message) => result is Err && result->Err_0@ == SpecError::Syntax(message),
    }
}

/// Whether a state and a result are those of a parse that gives a list of
/// nodes.
pub open spec fn produces_nodes(
    outcome: Parsed<Seq<SpecNode>>,
    state: SpecParser,
    result: Result<Vec<Node>, Error>,
) -> bool {
    &&& outcome.state == state
    &&& match outcome.result {
        Ok(nodes) => result is Ok && node_views(result->Ok_0@) == nodes,
        Err(message) => result is Err && result->Err_0@ == SpecError::Syntax(message),
    }
}

/// Whether a state and a result are those of a parse that gives a list of
/// tokens.
pub open spec fn produces_tokens(
    outcome: Parsed<Seq<SpecToken>>,
    state: SpecParser,
    result: Result<Vec<Token>, Error>,
) -> bool {
    &&& outcome.state == state
    &&& match outcome.result {
        Ok(tokens) => result is Ok && token_views(result->Ok_0@) == tokens,
        Err(message) => result is Err && result->Err_0@ == SpecError::Syntax(message),
    }
}

/// Whether a state and a result are those of a parse that gives nothing.
pub open spec fn produces_nothing(
    outcome: Parsed<()>,
    state: SpecParser,
    result: Result<(), Error>,
) -> bool {
    &&& outcome.state == state
    &&& match outcome.result {
        Ok(_) => result is Ok,
        Err(message) => result is Err && result->Err_0@ == SpecError::Syntax(message),
    }
}

/// Whether a parse that succeeded took a token.
pub open spec fn advanced<T>(
    tokens: Seq<SpecToken>,
    before: SpecParser,
    after: SpecParser,
    result: Result<T, Error>,
) -> bool {
    result is Ok ==> before.pos < after.pos && before.pos < tokens.len()
}

/// A number for each kind of token, whatever it carries.
pub fn kind_tag(kind: &TokenType) -> (tag: u8)
    ensures
        tag == grammar::tag(kind@),
{
    match kind {
        TokenType::Number(_) => 0,
        TokenType::String(_) => 1,
        TokenType::Name(_) => 2,
        TokenType::Plus => 3,
        TokenType::Minus => 4,
        TokenType::Multiply => 5,
        TokenType::Divide => 6,
        TokenType::ParOpen => 7,
        TokenType::ParClose => 8,
        TokenType::Greater => 9,
        TokenType::Less => 10,
        TokenType::GreraterEqual => 11,
        TokenType::LessEqual => 12,
        TokenType::Equal => 13,
        TokenType::NotEqual => 14,
        TokenType::BrackOpen => 15,
        TokenType::BrackClose => 16,
        TokenType::If => 17,
        TokenType::Else => 18,
        TokenType::Not => 19,
        TokenType::While => 20,
        TokenType::For => 21,
        TokenType::Or => 22,
        TokenType::And => 23,
        TokenType::Assign => 24,
        TokenType::FuncDeclare => 25,
        TokenType::Declare => 26,
        TokenType::Return => 27,
        TokenType::Print => 28,
        TokenType::Bool(_) => 29,
        TokenType::Separate => 30,
        TokenType::Eof => 31,
        TokenType::Comma => 32,
        TokenType::Nothing => 33,
    }
}

/// Whether a token is an operator of a level.
pub fn level_holds(level: Level, kind: &TokenType) -> (holds: bool)
    ensures
        holds == level.holds(kind@),
{
    match level {
        Level::Or => matches!(kind, TokenType::Or),
        Level::And => matches!(kind, TokenType::And),
        Level::Equality => matches!(kind, TokenType::NotEqual | TokenType::Equal),
        Level::Comparison => matches!(
            kind,
            TokenType::Greater | TokenType::Less | TokenType::GreraterEqual | TokenType::LessEqual
        ),
        Level::Term => matches!(kind, TokenType::Plus | TokenType::Minus),
        Level::Factor => matches!(kind, TokenType::Multiply | TokenType::Divide),
    }
}

/// The node of an operator of a level on two operands.
pub fn level_node(level: Level, id: usize, left: Node, operator: Token, right: Node) -> (node: Node)
    ensures
        node@ == level.node(id, left@, operator@, right@),
{
    match level {
        Level::Or => Node::Logical { id, left: Box::new(left), operator, right: Box::new(right) },
        Level::And => Node::Logical { id, left: Box::new(left), operator, right: Box::new(right) },
        _ => Node::BinaryOperator { id, left: Box::new(left), operator, right: Box::new(right) },
    }
}

/// The parser: the tokens, the position of the current one, and the last
/// identifier given to a node.
pub struct Parser<'a> {
    tokens: &'a Vec<Token>,
    token_index: usize,
    current_id: usize,
    end: Token,
}

impl<'a> View for Parser<'a> {
    type V = SpecParser;

    closed spec fn view(&self) -> SpecParser {
        SpecParser { pos: self.token_index as nat, id: self.current_id }
    }
}

impl<'a> Parser<'a> {
    #[verifier::type_invariant]
    spec fn well_formed(self) -> bool {
        self.token_index <= self.tokens@.len() && self.end@ == grammar::end_token()
    }

    /// The tokens that the parser reads.
    pub closed spec fn input(&self) -> Seq<SpecToken> {
        token_views(self.tokens@)
    }

    /// A parser at the first of the tokens, with no identifier given out yet.
    pub fn new(tokens: &'a Vec<Token>) -> (parser: Self)
        ensures
            parser@ == (SpecParser { pos: 0, id: 0 }),
            parser.input() == token_views(tokens@),
    {
        Parser {
            tokens,
            token_index: 0,
            current_id: 0,
            end: Token {
                _type: TokenType::Eof,
                value: String::from_str("<eof>"),
                line: 0,
                column: 0,
            },
        }
    }

    fn current(&self) -> (token: &Token)
        ensures
            token@ == grammar::current(self.input(), self@),
    {
        proof {
            use_type_invariant(self);
        }
        if self.token_index < self.tokens.len() {
            &self.tokens[self.token_index]
        } else {
            &self.end
        }
    }

    fn peek(&self) -> (token: Option<&Token>)
        ensures
            match token {
                Some(t) => grammar::peek(self.input(), self@) == Some(t@),
                None => grammar::peek(self.input(), self@) is None,
            },
    {
        proof {
            use_type_invariant(self);
        }
        if self.token_index < self.tokens.len() && self.token_index + 1 < self.tokens.len() {
            Some(&self.tokens[self.token_index + 1])
        } else {
            None
        }
    }

    fn next(&mut self)
        ensures
            final(self)@ == grammar::next(old(self).input(), old(self)@),
            final(self).input() == old(self).input(),
    {
        proof {
            use_type_invariant(&*self);
        }
        let at_end = match self.current()._type {
            TokenType::Eof => true,
            _ => false,
        };
        if !at_end {
            assert(self.token_index < self.tokens.len());
            self.token_index += 1;
        }
    }

    fn new_id(&mut self) -> (id: usize)
        ensures
            final(self)@ == grammar::new_id(old(self)@),
            final(self).input() == old(self).input(),
            id == final(self)@.id,
    {
        proof {
            use_type_invariant(&*self);
        }
        if self.current_id < usize::MAX {
            self.current_id += 1;
        }
        self.current_id
    }

    /// The syntax error with a message, at the current token.
    fn refuse(&self, message: &str) -> (error: Error)
        ensures
            grammar::bad::<()>(self.input(), self@, message@).result == Err::<(), Seq<char>>(
                error@->Syntax_0,
            ),
            error@ is Syntax,
    {
        let token = self.current();
        let mut text = String::from_str(message);
        text.append(position_text(token.line, token.column).as_str());
        Error::Syntax(text)
    }

    fn eat(&mut self, expected: &TokenType, msg: &str) -> (result: Result<(), Error>)
        ensures
            final(self).input() == old(self).input(),
            produces_nothing(
                grammar::eat(old(self).input(), old(self)@, expected@, msg@),
                final(self)@,
                result,
            ),
    {
        if kind_tag(&self.current()._type) == kind_tag(expected) {
            self.next();
            Ok(())
        } else {
            Err(self.refuse(msg))
        }
    }

    fn at_comma(&self) -> (here: bool)
        ensures
            here == (grammar::current(self.input(), self@).kind is Comma),
    {
        matches!(self.current()._type, TokenType::Comma)
    }

    fn at_open(&self) -> (here: bool)
        ensures
            here == (grammar::current(self.input(), self@).kind is ParOpen),
    {
        matches!(self.current()._type, TokenType::ParOpen)
    }

    fn at_close(&self) -> (here: bool)
        ensures
            here == (grammar::current(self.input(), self@).kind is ParClose),
    {
        matches!(self.current()._type, TokenType::ParClose)
    }

    fn at_sign(&self) -> (here: bool)
        ensures
            here == (grammar::current(self.input(), self@).kind is Not || grammar::current(
                self.input(),
                self@,
            ).kind is Minus),
    {
        matches!(self.current()._type, TokenType::Not | TokenType::Minus)
    }

    fn primary(&mut self) -> (result: Result<Node, Error>)
        ensures
            final(self).input() == old(self).input(),
            produces(grammar::primary(old(self).input(), old(self)@), final(self)@, result),
            advanced(old(self).input(), old(self)@, final(self)@, result),
        decreases grammar::left(old(self).input(), old(self)@), 11nat, 0nat,
    {
        proof {
            grammar_lemmas::unfold_primary(self.input(), self@);
        }
        let token = self.current().clone();
        let id = self.new_id();
        match token._type {
            TokenType::Number(value) => {
                self.next();
                Ok(Node::Literal { id, value: Literal::Number(value) })
            },
            TokenType::Bool(value) => {
                self.next();
                Ok(Node::Literal { id, value: Literal::Bool(value) })
            },
            TokenType::String(value) => {
                self.next();
                Ok(Node::Literal { id, value: Literal::String(value) })
            },
            TokenType::ParOpen => {
                self.next();
                match self.get_expression() {
                    Ok(node) => {
                        self.next();
                        Ok(node)
                    },
                    Err(error) => Err(error),
                }
            },
            TokenType::Nothing => {
                let id = self.new_id();
                self.next();
                Ok(Node::Literal { id, value: Literal::Nothing })
            },
            TokenType::Name(_) => {
                let id = self.new_id();
                self.next();
                Ok(Node::Variable { id, name: token })
            },
            _ => {
                let mut message = String::from_str("Couldn't identify this token: '");
                message.append(token.value.as_str());
                message.append("'");
                Err(self.refuse(message.as_str()))
            },
        }
    }

    fn arguments(&mut self, first: Node) -> (result: Result<Vec<Node>, Error>)
        ensures
            final(self).input() == old(self).input(),
            produces_nodes(
                grammar::arguments_rest(old(self).input(), old(self)@, seq![first@]),
                final(self)@,
                result,
            ),
            result is Ok ==> old(self)@.pos <= final(self)@.pos,
        decreases grammar::left(old(self).input(), old(self)@), 40nat, 0nat,
    {
        let mut args: Vec<Node> = Vec::new();
        proof {
            lemma_node_views_empty();
            lemma_node_views_push(args@, first);
        }
        args.push(first);
        assert(node_views(args@) == seq![first@]) by {
            assert(Seq::<SpecNode>::empty().push(first@) =~= seq![first@]);
        }
        while self.at_comma()
            invariant
                self.input() == old(self).input(),
                old(self)@.pos <= self@.pos,
                grammar::arguments_rest(old(self).input(), old(self)@, seq![first@])
                    == grammar::arguments_rest(self.input(), self@, node_views(args@)),
            decreases grammar::left(self.input(), self@),
        {
            proof {
                grammar_lemmas::unfold_arguments_rest(self.input(), self@, node_views(args@));
            }
            self.next();
            match self.get_expression() {
                Ok(node) => {
                    proof {
                        lemma_node_views_push(args@, node);
                    }
                    args.push(node);
                },
                Err(error) => {
                    return Err(error);
                },
            }
        }
        proof {
            grammar_lemmas::unfold_arguments_rest(self.input(), self@, node_views(args@));
        }
        Ok(args)
    }

    fn call(&mut self) -> (result: Result<Node, Error>)
        ensures
            final(self).input() == old(self).input(),
            produces(grammar::call(old(self).input(), old(self)@), final(self)@, result),
            advanced(old(self).input(), old(self)@, final(self)@, result),
        decreases grammar::left(old(self).input(), old(self)@), 12nat, 0nat,
    {
        proof {
            grammar_lemmas::unfold_call(self.input(), self@);
        }
        let mut expr = self.primary()?;
        while self.at_open()
            invariant
                self.input() == old(self).input(),
                old(self)@.pos < self@.pos,
                old(self)@.pos < self.input().len(),
                grammar::call(old(self).input(), old(self)@) == grammar::call_rest(
                    self.input(),
                    self@,
                    expr@,
                ),
            decreases grammar::left(self.input(), self@),
        {
            proof {
                grammar_lemmas::unfold_call_rest(self.input(), self@, expr@);
            }
            self.next();
            if self.at_close() {
                self.next();
                let id = self.new_id();
                let none: Vec<Node> = Vec::new();
                proof {
                    lemma_node_views_empty();
                }
                expr = Node::FnCall { id, name: Box::new(expr), args: none };
            } else {
                let first = self.get_expression()?;
                let args = self.arguments(first)?;
                self.eat(
                    &TokenType::ParClose,
                    "Expected closing parenthesis after argument list.",
                )?;
                let id = self.new_id();
                expr = Node::FnCall { id, name: Box::new(expr), args };
            }
        }
        proof {
            grammar_lemmas::unfold_call_rest(self.input(), self@, expr@);
        }
        Ok(expr)
    }

    fn unary(&mut self) -> (result: Result<Node, Error>)
        ensures
            final(self).input() == old(self).input(),
            produces(grammar::unary(old(self).input(), old(self)@), final(self)@, result),
            advanced(old(self).input(), old(self)@, final(self)@, result),
        decreases grammar::left(old(self).input(), old(self)@), 13nat, 0nat,
    {
        proof {
            grammar_lemmas::unfold_unary(self.input(), self@);
        }
        if self.at_sign() {
            let operator = self.current().clone();
            self.next();
            match self.unary() {
                Ok(child) => {
                    let id = self.new_id();
                    Ok(Node::UnaryOperator { id, operator, child: Box::new(child) })
                },
                Err(error) => Err(error),
            }
        } else {
            self.call()
        }
    }

    fn operand(&mut self, level: Level) -> (result: Result<Node, Error>)
        ensures
            final(self).input() == old(self).input(),
            produces(grammar::operand(old(self).input(), old(self)@, level), final(self)@, result),
            advanced(old(self).input(), old(self)@, final(self)@, result),
        decreases grammar::left(old(self).input(), old(self)@), level.rank(), 0nat,
    {
        proof {
            grammar_lemmas::unfold_operand(self.input(), self@, level);
        }
        match level {
            Level::Or => self.and_statement(),
            Level::And => self.equality(),
            Level::Equality => self.comparison(),
            Level::Comparison => self.term(),
            Level::Term => self.factor(),
            Level::Factor => self.unary(),
        }
    }

    fn binary(&mut self, level: Level) -> (result: Result<Node, Error>)
        ensures
            final(self).input() == old(self).input(),
            produces(grammar::binary(old(self).input(), old(self)@, level), final(self)@, result),
            advanced(old(self).input(), old(self)@, final(self)@, result),
        decreases grammar::left(old(self).input(), old(self)@), level.rank(), 1nat,
    {
        proof {
            grammar_lemmas::unfold_binary(self.input(), self@, level);
        }
        let mut expr = self.operand(level)?;
        while level_holds(level, &self.current()._type)
            invariant
                self.input() == old(self).input(),
                old(self)@.pos < self@.pos,
                old(self)@.pos < self.input().len(),
                grammar::binary(old(self).input(), old(self)@, level) == grammar::binary_rest(
                    self.input(),
                    self@,
                    level,
                    expr@,
                ),
            decreases grammar::left(self.input(), self@),
        {
            proof {
                grammar_lemmas::unfold_binary_rest(self.input(), self@, level, expr@);
            }
            let operator = self.current().clone();
            self.next();
            let right = self.operand(level)?;
            let id = self.new_id();
            expr = level_node(level, id, expr, operator, right);
        }
        proof {
            grammar_lemmas::unfold_binary_rest(self.input(), self@, level, expr@);
        }
        Ok(expr)
    }

    fn or_statement(&mut self) -> (result: Result<Node, Error>)
        ensures
            final(self).input() == old(self).input(),
            produces(
                grammar::binary(old(self).input(), old(self)@, Level::Or),
                final(self)@,
                result,
            ),
            advanced(old(self).input(), old(self)@, final(self)@, result),
        decreases grammar::left(old(self).input(), old(self)@), 19nat, 2nat,
    {
        self.binary(Level::Or)
    }

    fn and_statement(&mut self) -> (result: Result<Node, Error>)
        ensures
            final(self).input() == old(self).input(),
            produces(
                grammar::binary(old(self).input(), old(self)@, Level::And),
                final(self)@,
                result,
            ),
            advanced(old(self).input(), old(self)@, final(self)@, result),
        decreases grammar::left(old(self).input(), old(self)@), 18nat, 2nat,
    {
        self.binary(Level::And)
    }

    /// Parses comparisons joined by `==` and `!=`.
    pub fn equality(&mut self) -> (result: Result<Node, Error>)
        ensures
            final(self).input() == old(self).input(),
            produces(
                grammar::binary(old(self).input(), old(self)@, Level::Equality),
                final(self)@,
                result,
            ),
            advanced(old(self).input(), old(self)@, final(self)@, result),
        decreases grammar::left(old(self).input(), old(self)@), 17nat, 2nat,
    {
        self.binary(Level::Equality)
    }

    fn comparison(&mut self) -> (result: Result<Node, Error>)
        ensures
            final(self).input() == old(self).input(),
            produces(
                grammar::binary(old(self).input(), old(self)@, Level::Comparison),
                final(self)@,
                result,
            ),
            advanced(old(self).input(), old(self)@, final(self)@, result),
        decreases grammar::left(old(self).input(), old(self)@), 16nat, 2nat,
    {
        self.binary(Level::Comparison)
    }

    fn term(&mut self) -> (result: Result<Node, Error>)
        ensures
            final(self).input() == old(self).input(),
            produces(
                grammar::binary(old(self).input(), old(self)@, Level::Term),
                final(self)@,
                result,
            ),
            advanced(old(self).input(), old(self)@, final(self)@, result),
        decreases grammar::left(old(self).input(), old(self)@), 15nat, 2nat,
    {
        self.binary(Level::Term)
    }

    fn factor(&mut self) -> (result: Result<Node, Error>)
        ensures
            final(self).input() == old(self).input(),
            produces(
                grammar::binary(old(self).input(), old(self)@, Level::Factor),
                final(self)@,
                result,
            ),
            advanced(old(self).input(), old(self)@, final(self)@, result),
        decreases grammar::left(old(self).input(), old(self)@), 14nat, 2nat,
    {
        self.binary(Level::Factor)
    }

    /// Parses an expression.
    pub fn get_expression(&mut self) -> (result: Result<Node, Error>)
        ensures
            final(self).input() == old(self).input(),
            produces(grammar::get_expression(old(self).input(), old(self)@), final(self)@, result),
            advanced(old(self).input(), old(self)@, final(self)@, result),
        decreases grammar::left(old(self).input(), old(self)@), 20nat, 0nat,
    {
        proof {
            grammar_lemmas::unfold_get_expression(self.input(), self@);
        }
        self.or_statement()
    }

    fn at_else(&self) -> (here: bool)
        ensures
            here == (grammar::current(self.input(), self@).kind is Else),
    {
        matches!(self.current()._type, TokenType::Else)
    }

    fn at_block_end(&self) -> (here: bool)
        ensures
            here == (grammar::current(self.input(), self@).kind is BrackClose),
    {
        matches!(self.current()._type, TokenType::BrackClose)
    }

    fn at_end(&self) -> (here: bool)
        ensures
            here == (grammar::current(self.input(), self@).kind is Eof),
    {
        matches!(self.current()._type, TokenType::Eof)
    }

    fn expression_statement(&mut self) -> (result: Result<Node, Error>)
        ensures
            final(self).input() == old(self).input(),
            produces(
                grammar::expression_statement(old(self).input(), old(self)@),
                final(self)@,
                result,
            ),
            advanced(old(self).input(), old(self)@, final(self)@, result),
        decreases grammar::left(old(self).input(), old(self)@), 29nat, 0nat,
    {
        proof {
            grammar_lemmas::unfold_expression_statement(self.input(), self@);
        }
        let node = self.get_expression()?;
        match self.eat(&TokenType::Separate, "Expected a separator after the statement.") {
            Ok(_) => Ok(node),
            Err(error) => Err(error),
        }
    }

    fn return_statement(&mut self) -> (result: Result<Node, Error>)
        ensures
            final(self).input() == old(self).input(),
            produces(grammar::return_statement(old(self).input(), old(self)@), final(self)@, result),
            advanced(old(self).input(), old(self)@, final(self)@, result),
        decreases grammar::left(old(self).input(), old(self)@), 29nat, 0nat,
    {
        proof {
            grammar_lemmas::unfold_return_statement(self.input(), self@);
        }
        self.eat(&TokenType::Return, "Expected 'return'.")?;
        let value = self.get_expression()?;
        self.eat(&TokenType::Separate, "Expected separator after return statement.")?;
        let id = self.new_id();
        Ok(Node::Return { id, value: Box::new(value) })
    }

    fn print(&mut self) -> (result: Result<Node, Error>)
        ensures
            final(self).input() == old(self).input(),
            produces(grammar::print(old(self).input(), old(self)@), final(self)@, result),
            advanced(old(self).input(), old(self)@, final(self)@, result),
        decreases grammar::left(old(self).input(), old(self)@), 29nat, 0nat,
    {
        proof {
            grammar_lemmas::unfold_print(self.input(), self@);
        }
        let word = self.current().clone();
        self.eat(&TokenType::Print, "Expected 'print'.")?;
        let callee = self.new_id();
        let value = self.get_expression()?;
        self.eat(&TokenType::Separate, "Expected a separator after the statement.")?;
        let id = self.new_id();
        let mut args: Vec<Node> = Vec::new();
        proof {
            lemma_node_views_empty();
            lemma_node_views_push(args@, value);
        }
        args.push(value);
        assert(node_views(args@) == seq![value@]) by {
            assert(Seq::<SpecNode>::empty().push(value@) =~= seq![value@]);
        }
        let function = Node::Variable { id: callee, name: word };
        assert(function@ == SpecNode::Variable { id: callee, name: word@ });
        Ok(Node::FnCall { id, name: Box::new(function), args })
    }

    fn binding(&mut self, name: Token, declares: bool) -> (result: Result<Node, Error>)
        ensures
            final(self).input() == old(self).input(),
            produces(
                grammar::binding(old(self).input(), old(self)@, name@, declares),
                final(self)@,
                result,
            ),
            advanced(old(self).input(), old(self)@, final(self)@, result),
        decreases grammar::left(old(self).input(), old(self)@), 28nat, 0nat,
    {
        proof {
            grammar_lemmas::unfold_binding(self.input(), self@, name@, declares);
        }
        let mut message = String::from_str("Expected '=' to assign a value to '");
        message.append(name.value.as_str());
        message.append("'");
        self.eat(&TokenType::Assign, message.as_str())?;
        let value = self.get_expression()?;
        self.eat(&TokenType::Separate, "Expected a separator after the statement.")?;
        let id = self.new_id();
        if declares {
            Ok(Node::Declare { id, name, value: Box::new(value) })
        } else {
            Ok(Node::Assign { id, name, value: Box::new(value) })
        }
    }

    /// Parses a declaration: `let`, a name, `=`, an expression, a separator.
    pub fn declare_var(&mut self) -> (result: Result<Node, Error>)
        ensures
            final(self).input() == old(self).input(),
            produces(grammar::declare_var(old(self).input(), old(self)@), final(self)@, result),
            advanced(old(self).input(), old(self)@, final(self)@, result),
        decreases grammar::left(old(self).input(), old(self)@), 29nat, 0nat,
    {
        proof {
            grammar_lemmas::unfold_declare_var(self.input(), self@);
        }
        self.eat(&TokenType::Declare, "Expected 'let' in front of variable declaration.")?;
        let name = self.current().clone();
        self.eat(&TokenType::Name(String::new()), "Expected a name after 'let' keyword.")?;
        self.binding(name, true)
    }

    /// Parses an assignment: a name, `=`, an expression, a separator.
    pub fn assign(&mut self) -> (result: Result<Node, Error>)
        ensures
            final(self).input() == old(self).input(),
            produces(grammar::assign(old(self).input(), old(self)@), final(self)@, result),
            advanced(old(self).input(), old(self)@, final(self)@, result),
        decreases grammar::left(old(self).input(), old(self)@), 29nat, 0nat,
    {
        proof {
            grammar_lemmas::unfold_assign(self.input(), self@);
        }
        let name = self.current().clone();
        self.eat(&TokenType::Name(String::new()), "Expected a name when assigning a value.")?;
        self.binding(name, false)
    }

    fn condition(&mut self, open_message: &str, close_message: &str) -> (result: Result<
        Node,
        Error,
    >)
        ensures
            final(self).input() == old(self).input(),
            produces(
                grammar::condition(old(self).input(), old(self)@, open_message@, close_message@),
                final(self)@,
                result,
            ),
            advanced(old(self).input(), old(self)@, final(self)@, result),
        decreases grammar::left(old(self).input(), old(self)@), 28nat, 0nat,
    {
        proof {
            grammar_lemmas::unfold_condition(self.input(), self@, open_message@, close_message@);
        }
        self.eat(&TokenType::ParOpen, open_message)?;
        let value = self.get_expression()?;
        match self.eat(&TokenType::ParClose, close_message) {
            Ok(_) => Ok(value),
            Err(error) => Err(error),
        }
    }

    /// Parses an `if`: a condition in parentheses, a statement, and perhaps
    /// `else` and another statement.
    pub fn if_statement(&mut self) -> (result: Result<Node, Error>)
        ensures
            final(self).input() == old(self).input(),
            produces(grammar::if_statement(old(self).input(), old(self)@), final(self)@, result),
            advanced(old(self).input(), old(self)@, final(self)@, result),
        decreases grammar::left(old(self).input(), old(self)@), 29nat, 0nat,
    {
        proof {
            grammar_lemmas::unfold_if_statement(self.input(), self@);
        }
        self.eat(&TokenType::If, "Expected 'if' to starting if statement.")?;
        let condition = self.condition(
            "Expected open parenthesis to if statement.",
            "Expected closing parenthesis to if statement.",
        )?;
        let body = self.statement()?;
        if self.at_else() {
            self.next();
            let other = self.statement()?;
            let id = self.new_id();
            Ok(
                Node::If {
                    id,
                    condition: Box::new(condition),
                    body: Box::new(body),
                    else_block: Some(Box::new(other)),
                },
            )
        } else {
            let id = self.new_id();
            Ok(
                Node::If {
                    id,
                    condition: Box::new(condition),
                    body: Box::new(body),
                    else_block: None,
                },
            )
        }
    }

    fn while_statement(&mut self) -> (result: Result<Node, Error>)
        ensures
            final(self).input() == old(self).input(),
            produces(grammar::while_statement(old(self).input(), old(self)@), final(self)@, result),
            advanced(old(self).input(), old(self)@, final(self)@, result),
        decreases grammar::left(old(self).input(), old(self)@), 29nat, 0nat,
    {
        proof {
            grammar_lemmas::unfold_while_statement(self.input(), self@);
        }
        self.eat(&TokenType::While, "Expected 'while' to start of while loop.")?;
        let condition = self.condition(
            "Expected '(' to condition of while loop.",
            "Expected ')' after condition of while loop.",
        )?;
        let body = self.statement()?;
        let id = self.new_id();
        Ok(Node::While { id, condition: Box::new(condition), body: Box::new(body) })
    }

    fn parameters(&mut self) -> (result: Result<Vec<Token>, Error>)
        ensures
            final(self).input() == old(self).input(),
            produces_tokens(
                grammar::parameters(old(self).input(), old(self)@),
                final(self)@,
                result,
            ),
            result is Ok ==> old(self)@.pos <= final(self)@.pos,
    {
        proof {
            grammar_lemmas::unfold_parameters(self.input(), self@);
        }
        let mut args: Vec<Token> = Vec::new();
        if self.at_close() {
            proof {
                lemma_token_views_empty();
            }
            return Ok(args);
        }
        let name = self.current().clone();
        self.eat(&TokenType::Name(String::new()), "Expected a name for function arguments.")?;
        proof {
            lemma_token_views_empty();
            lemma_token_views_push(args@, name);
        }
        args.push(name);
        assert(token_views(args@) == seq![name@]) by {
            assert(Seq::<SpecToken>::empty().push(name@) =~= seq![name@]);
        }
        let ghost begun = self@;
        while self.at_comma()
            invariant
                self.input() == old(self).input(),
                old(self)@.pos <= begun.pos <= self@.pos,
                grammar::parameters(old(self).input(), old(self)@) == grammar::limited(
                    self.input(),
                    grammar::parameters_rest(self.input(), self@, token_views(args@)),
                ),
            decreases grammar::left(self.input(), self@),
        {
            proof {
                grammar_lemmas::unfold_parameters_rest(self.input(), self@, token_views(args@));
            }
            self.next();
            let more = self.current().clone();
            self.eat(
                &TokenType::Name(String::new()),
                "Expected a name for function arguments.",
            )?;
            proof {
                lemma_token_views_push(args@, more);
            }
            args.push(more);
        }
        proof {
            grammar_lemmas::unfold_parameters_rest(self.input(), self@, token_views(args@));
        }
        if args.len() > 150 {
            return Err(
                self.refuse("Cannot have more than 150 arguments in a function declaration."),
            );
        }
        Ok(args)
    }

    fn function_head(&mut self) -> (result: Result<(Token, Vec<Token>), Error>)
        ensures
            final(self).input() == old(self).input(),
            grammar::function_head(old(self).input(), old(self)@).state == final(self)@,
            match grammar::function_head(old(self).input(), old(self)@).result {
                Ok(head) => result is Ok && result->Ok_0.0@ == head.0 && token_views(
                    result->Ok_0.1@,
                ) == head.1,
                Err(message) => result is Err && result->Err_0@ == SpecError::Syntax(message),
            },
            advanced(old(self).input(), old(self)@, final(self)@, result),
    {
        proof {
            grammar_lemmas::unfold_function_head(self.input(), self@);
        }
        self.eat(&TokenType::FuncDeclare, "Expected 'fn' to start a function declaration.")?;
        let name = self.current().clone();
        self.eat(
            &TokenType::Name(String::new()),
            "Expected a name for the function declaration.",
        )?;
        self.eat(
            &TokenType::ParOpen,
            "Expected an open parenthesis for the function declaration.",
        )?;
        let args = self.parameters()?;
        match self.eat(
            &TokenType::ParClose,
            "Expected closing parenthesis to function declaration.",
        ) {
            Ok(_) => Ok((name, args)),
            Err(error) => Err(error),
        }
    }

    fn declare_fn(&mut self) -> (result: Result<Node, Error>)
        ensures
            final(self).input() == old(self).input(),
            produces(grammar::declare_fn(old(self).input(), old(self)@), final(self)@, result),
            advanced(old(self).input(), old(self)@, final(self)@, result),
        decreases grammar::left(old(self).input(), old(self)@), 29nat, 0nat,
    {
        proof {
            grammar_lemmas::unfold_declare_fn(self.input(), self@);
        }
        let (name, args) = self.function_head()?;
        let body = self.statement()?;
        let id = self.new_id();
        Ok(Node::DeclareFn { id, name, args, body: Box::new(body) })
    }

    fn code_block(&mut self) -> (result: Result<Node, Error>)
        ensures
            final(self).input() == old(self).input(),
            produces(grammar::code_block(old(self).input(), old(self)@), final(self)@, result),
            advanced(old(self).input(), old(self)@, final(self)@, result),
        decreases grammar::left(old(self).input(), old(self)@), 29nat, 0nat,
    {
        proof {
            grammar_lemmas::unfold_code_block(self.input(), self@);
        }
        self.eat(&TokenType::BrackOpen, "Expected open bracket to code block.")?;
        let mut nodes: Vec<Node> = Vec::new();
        proof {
            lemma_node_views_empty();
        }
        let ghost begun = self@;
        while !self.at_block_end()
            invariant
                self.input() == old(self).input(),
                old(self)@.pos < begun.pos <= self@.pos,
                old(self)@.pos < self.input().len(),
                grammar::code_block(old(self).input(), old(self)@) == grammar::block_rest(
                    self.input(),
                    self@,
                    node_views(nodes@),
                ),
            decreases grammar::left(self.input(), self@),
        {
            proof {
                grammar_lemmas::unfold_block_rest(self.input(), self@, node_views(nodes@));
            }
            match self.statement() {
                Ok(node) => {
                    proof {
                        lemma_node_views_push(nodes@, node);
                    }
                    nodes.push(node);
                },
                Err(error) => {
                    return Err(error);
                },
            }
        }
        proof {
            grammar_lemmas::unfold_block_rest(self.input(), self@, node_views(nodes@));
        }
        self.next();
        Ok(Node::Block(nodes))
    }

    fn statement(&mut self) -> (result: Result<Node, Error>)
        ensures
            final(self).input() == old(self).input(),
            produces(grammar::statement(old(self).input(), old(self)@), final(self)@, result),
            advanced(old(self).input(), old(self)@, final(self)@, result),
        decreases grammar::left(old(self).input(), old(self)@), 30nat, 0nat,
    {
        proof {
            grammar_lemmas::unfold_statement(self.input(), self@);
        }
        let kind = self.current()._type.clone();
        match kind {
            TokenType::Declare => self.declare_var(),
            TokenType::Name(_) => {
                let assigns = match self.peek() {
                    Some(token) => matches!(token._type, TokenType::Assign),
                    None => false,
                };
                if assigns {
                    self.assign()
                } else {
                    self.expression_statement()
                }
            },
            TokenType::If => self.if_statement(),
            TokenType::While => self.while_statement(),
            TokenType::For => Err(self.refuse("For loops are not supported.")),
            TokenType::Print => self.print(),
            TokenType::BrackOpen => self.code_block(),
            TokenType::FuncDeclare => self.declare_fn(),
            TokenType::Return => self.return_statement(),
            _ => self.expression_statement(),
        }
    }

    /// Parses a program: statements up to the end of the input. The
    /// identifiers of its nodes count up from the parser's last one.
    pub fn parse(&mut self) -> (result: Result<Vec<Node>, Error>)
        ensures
            final(self).input() == old(self).input(),
            produces_nodes(grammar::parse(old(self).input(), old(self)@), final(self)@, result),
    {
        proof {
            grammar_lemmas::unfold_parse(self.input(), self@);
        }
        let mut nodes: Vec<Node> = Vec::new();
        proof {
            lemma_node_views_empty();
        }
        while !self.at_end()
            invariant
                self.input() == old(self).input(),
                grammar::parse(old(self).input(), old(self)@) == grammar::program_rest(
                    self.input(),
                    self@,
                    node_views(nodes@),
                ),
            decreases grammar::left(self.input(), self@),
        {
            proof {
                grammar_lemmas::unfold_program_rest(self.input(), self@, node_views(nodes@));
            }
            match self.statement() {
                Ok(node) => {
                    proof {
                        lemma_node_views_push(nodes@, node);
                    }
                    nodes.push(node);
                },
                Err(error) => {
                    return Err(error);
                },
            }
        }
        proof {
            grammar_lemmas::unfold_program_rest(self.input(), self@, node_views(nodes@));
        }
        Ok(nodes)
    }
}

} // verus!
