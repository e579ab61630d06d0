//! The grammar: what the parser makes of a sequence of tokens.
//!
//! Every function takes the tokens and a state, the position of the next token
//! and the last identifier given out, and says where parsing ends and with what:
//! a tree, or the message of the syntax error that stopped it.

use vstd::prelude::*;
use crate::ast::{SpecNode, SpecLiteral};
use crate::token::{SpecToken, SpecTokenType};
use crate::semantics::position;

verus! {

/// The parser's state: the position of the current token, and the last
/// identifier given to a node.
pub struct SpecParser {
    pub pos: nat,
    pub id: usize,
}

/// Where parsing ends, and with what.
pub struct Parsed<T> {
    pub state: SpecParser,
    pub result: Result<T, Seq<char>>,
}

/// The token that stands for the end of the input where the tokens end
/// without one.
pub open spec fn end_token() -> SpecToken {
    SpecToken { kind: SpecTokenType::Eof, value: "<eof>"@, line: 0, column: 0 }
}

/// The current token.
pub open spec fn current(tokens: Seq<SpecToken>, st: SpecParser) -> SpecToken {
    if st.pos < tokens.len() {
        tokens[st.pos as int]
    } else {
        end_token()
    }
}

/// The token after the current one, if there is one.
pub open spec fn peek(tokens: Seq<SpecToken>, st: SpecParser) -> Option<SpecToken> {
    if st.pos + 1 < tokens.len() {
        Some(tokens[(st.pos + 1) as int])
    } else {
        None
    }
}

/// How many tokens are left.
pub open spec fn left(tokens: Seq<SpecToken>, st: SpecParser) -> nat {
    if st.pos < tokens.len() {
        (tokens.len() - st.pos) as nat
    } else {
        0
    }
}

/// The state after the current token; the end of the input is never passed.
pub open spec fn next(tokens: Seq<SpecToken>, st: SpecParser) -> SpecParser {
    if current(tokens, st).kind is Eof {
        st
    } else {
        SpecParser { pos: st.pos + 1, ..st }
    }
}

/// The state after an identifier has been given out: identifiers count up
/// from one.
pub open spec fn new_id(st: SpecParser) -> SpecParser {
    if st.id < usize::MAX {
        SpecParser { id: (st.id + 1) as usize, ..st }
    } else {
        st
    }
}

/// A number for each kind of token, whatever it carries.
pub open spec fn tag(kind: SpecTokenType) -> nat {
    match kind {
        SpecTokenType::Number(_) => 0,
        SpecTokenType::String(_) => 1,
        SpecTokenType::Name(_) => 2,
        SpecTokenType::Plus => 3,
        SpecTokenType::Minus => 4,
        SpecTokenType::Multiply => 5,
        SpecTokenType::Divide => 6,
        SpecTokenType::ParOpen => 7,
        SpecTokenType::ParClose => 8,
        SpecTokenType::Greater => 9,
        SpecTokenType::Less => 10,
        SpecTokenType::GreraterEqual => 11,
        SpecTokenType::LessEqual => 12,
        SpecTokenType::Equal => 13,
        SpecTokenType::NotEqual => 14,
        SpecTokenType::BrackOpen => 15,
        SpecTokenType::BrackClose => 16,
        SpecTokenType::If => 17,
        SpecTokenType::Else => 18,
        SpecTokenType::Not => 19,
        SpecTokenType::While => 20,
        SpecTokenType::For => 21,
        SpecTokenType::Or => 22,
        SpecTokenType::And => 23,
        SpecTokenType::Assign => 24,
        SpecTokenType::FuncDeclare => 25,
        SpecTokenType::Declare => 26,
        SpecTokenType::Return => 27,
        SpecTokenType::Print => 28,
        SpecTokenType::Bool(_) => 29,
        SpecTokenType::Separate => 30,
        SpecTokenType::Eof => 31,
        SpecTokenType::Comma => 32,
        SpecTokenType::Nothing => 33,
    }
}

/// Parsing that goes on in a state with a value.
pub open spec fn good<T>(state: SpecParser, value: T) -> Parsed<T> {
    Parsed { state, result: Ok(value) }
}

/// Parsing that stops at the current token with a message, to which the
/// token's position is added.
pub open spec fn bad<T>(
    tokens: Seq<SpecToken>,
    state: SpecParser,
    message: Seq<char>,
) -> Parsed<T> {
    Parsed {
        state,
        result: Err(message + position(current(tokens, state).line, current(tokens, state).column)),
    }
}

/// The failure of one parse as the failure of the parse around it.
pub open spec fn stop<T, U>(tokens: Seq<SpecToken>, inner: Parsed<T>) -> Parsed<U> {
    match inner.result {
        Err(message) => Parsed { state: inner.state, result: Err(message) },
        Ok(_) => bad(tokens, inner.state, "The parser did not move on."@),
    }
}

/// Whether a parse that began at a state succeeded and took a token. A parse
/// that succeeds always has taken one, so this asks only for success.
pub open spec fn moved<T>(tokens: Seq<SpecToken>, from: SpecParser, inner: Parsed<T>) -> bool {
    inner.result is Ok && from.pos < inner.state.pos && from.pos < tokens.len()
}

/// Takes the current token if it is of the expected kind, and fails with the
/// message if not.
pub open spec fn eat(
    tokens: Seq<SpecToken>,
    st: SpecParser,
    expected: SpecTokenType,
    message: Seq<char>,
) -> Parsed<()> {
    if tag(current(tokens, st).kind) == tag(expected) {
        good(next(tokens, st), ())
    } else {
        bad(tokens, st, message)
    }
}

// ----------------------------------------------------------------------------
// Expressions
// ----------------------------------------------------------------------------
/// A literal, a name, or an expression in parentheses. After an expression in
/// parentheses one token is passed over, which is the closing parenthesis where
/// the input is well formed.
#[verifier::opaque]
pub open spec fn primary(tokens: Seq<SpecToken>, st: SpecParser) -> Parsed<SpecNode>
    decreases left(tokens, st), 11nat, 0nat,
{
    let first = new_id(st);
    let token = current(tokens, st);
    match token.kind {
        SpecTokenType::Number(bits) => good(
            next(tokens, first),
            SpecNode::Literal { id: first.id, value: SpecLiteral::Number(bits) },
        ),
        SpecTokenType::Bool(b) => good(
            next(tokens, first),
            SpecNode::Literal { id: first.id, value: SpecLiteral::Bool(b) },
        ),
        SpecTokenType::String(text) => good(
            next(tokens, first),
            SpecNode::Literal { id: first.id, value: SpecLiteral::String(text) },
        ),
        SpecTokenType::ParOpen => {
            let inner = get_expression(tokens, next(tokens, first));
            match inner.result {
                Ok(node) => good(next(tokens, inner.state), node),
                Err(_) => inner,
            }
        },
        SpecTokenType::Nothing => {
            let second = new_id(first);
            good(
                next(tokens, second),
                SpecNode::Literal { id: second.id, value: SpecLiteral::Nothing },
            )
        },
        SpecTokenType::Name(_) => {
            let second = new_id(first);
            good(next(tokens, second), SpecNode::Variable { id: second.id, name: token })
        },
        _ => bad(tokens, first, "Couldn't identify this token: '"@ + token.value + "'"@),
    }
}

/// The arguments of a call after the first, each behind a comma.
#[verifier::opaque]
pub open spec fn arguments_rest(
    tokens: Seq<SpecToken>,
    st: SpecParser,
    args: Seq<SpecNode>,
) -> Parsed<Seq<SpecNode>>
    decreases left(tokens, st), 40nat, 0nat,
{
    if current(tokens, st).kind is Comma {
        let one = get_expression(tokens, next(tokens, st));
        if moved(tokens, st, one) {
            arguments_rest(tokens, one.state, args.push(one.result->Ok_0))
        } else {
            stop(tokens, one)
        }
    } else {
        good(st, args)
    }
}

/// The calls that follow a callee: each a list of arguments in parentheses,
/// the result of one the callee of the next.
#[verifier::opaque]
pub open spec fn call_rest(tokens: Seq<SpecToken>, st: SpecParser, callee: SpecNode) -> Parsed<
    SpecNode,
>
    decreases left(tokens, st), 41nat, 0nat,
{
    if current(tokens, st).kind is ParOpen {
        let opened = next(tokens, st);
        if current(tokens, opened).kind is ParClose {
            let named = new_id(next(tokens, opened));
            call_rest(
                tokens,
                named,
                SpecNode::FnCall { id: named.id, name: Box::new(callee), args: Seq::empty() },
            )
        } else {
            let first = get_expression(tokens, opened);
            if moved(tokens, st, first) {
                let all = arguments_rest(tokens, first.state, seq![first.result->Ok_0]);
                if moved(tokens, st, all) {
                    let closed = eat(
                        tokens,
                        all.state,
                        SpecTokenType::ParClose,
                        "Expected closing parenthesis after argument list."@,
                    );
                    if moved(tokens, st, closed) {
                        let named = new_id(closed.state);
                        call_rest(
                            tokens,
                            named,
                            SpecNode::FnCall {
                                id: named.id,
                                name: Box::new(callee),
                                args: all.result->Ok_0,
                            },
                        )
                    } else {
                        stop(tokens, closed)
                    }
                } else {
                    stop(tokens, all)
                }
            } else {
                stop(tokens, first)
            }
        }
    } else {
        good(st, callee)
    }
}

/// A primary expression and the calls that follow it.
#[verifier::opaque]
pub open spec fn call(tokens: Seq<SpecToken>, st: SpecParser) -> Parsed<SpecNode>
    decreases left(tokens, st), 12nat, 0nat,
{
    let callee = primary(tokens, st);
    if moved(tokens, st, callee) {
        call_rest(tokens, callee.state, callee.result->Ok_0)
    } else {
        stop(tokens, callee)
    }
}

/// `!` or `-` before a unary expression, or a call.
#[verifier::opaque]
pub open spec fn unary(tokens: Seq<SpecToken>, st: SpecParser) -> Parsed<SpecNode>
    decreases left(tokens, st), 13nat, 0nat,
{
    let operator = current(tokens, st);
    if operator.kind is Not || operator.kind is Minus {
        let child = unary(tokens, next(tokens, st));
        match child.result {
            Ok(node) => {
                let named = new_id(child.state);
                good(
                    named,
                    SpecNode::UnaryOperator { id: named.id, operator, child: Box::new(node) },
                )
            },
            Err(_) => child,
        }
    } else {
        call(tokens, st)
    }
}

/// A level of binary operators: which operators it holds, and whether they
/// make logical nodes.
#[derive(Clone, Copy, PartialEq, Eq, Debug, Structural)]
pub enum Level {
    Or,
    And,
    Equality,
    Comparison,
    Term,
    Factor,
}

impl Level {
    /// Whether a token is an operator of the level.
    pub open spec fn holds(self, kind: SpecTokenType) -> bool {
        match self {
            Level::Or => kind is Or,
            Level::And => kind is And,
            Level::Equality => kind is NotEqual || kind is Equal,
            Level::Comparison => kind is Greater || kind is Less || kind is GreraterEqual
                || kind is LessEqual,
            Level::Term => kind is Plus || kind is Minus,
            Level::Factor => kind is Multiply || kind is Divide,
        }
    }

    /// The level's rank: a level binds looser than the levels of lower rank.
    pub open spec fn rank(self) -> nat {
        match self {
            Level::Or => 19,
            Level::And => 18,
            Level::Equality => 17,
            Level::Comparison => 16,
            Level::Term => 15,
            Level::Factor => 14,
        }
    }

    /// The node of an operator of the level on two operands.
    pub open spec fn node(
        self,
        id: usize,
        left: SpecNode,
        operator: SpecToken,
        right: SpecNode,
    ) -> SpecNode {
        match self {
            Level::Or => SpecNode::Logical {
                id,
                left: Box::new(left),
                operator,
                right: Box::new(right),
            },
            Level::And => SpecNode::Logical {
                id,
                left: Box::new(left),
                operator,
                right: Box::new(right),
            },
            _ => SpecNode::BinaryOperator {
                id,
                left: Box::new(left),
                operator,
                right: Box::new(right),
            },
        }
    }
}

/// An operand of a level: an expression of the next tighter level.
#[verifier::opaque]
pub open spec fn operand(tokens: Seq<SpecToken>, st: SpecParser, level: Level) -> Parsed<SpecNode>
    decreases left(tokens, st), level.rank(), 0nat,
{
    match level {
        Level::Or => binary(tokens, st, Level::And),
        Level::And => binary(tokens, st, Level::Equality),
        Level::Equality => binary(tokens, st, Level::Comparison),
        Level::Comparison => binary(tokens, st, Level::Term),
        Level::Term => binary(tokens, st, Level::Factor),
        Level::Factor => unary(tokens, st),
    }
}

/// The operators of a level that follow a left operand, each with its right
/// operand; they group to the left.
#[verifier::opaque]
pub open spec fn binary_rest(
    tokens: Seq<SpecToken>,
    st: SpecParser,
    level: Level,
    left_node: SpecNode,
) -> Parsed<SpecNode>
    decreases left(tokens, st), 42nat, 0nat,
{
    let operator = current(tokens, st);
    if level.holds(operator.kind) {
        let right = operand(tokens, next(tokens, st), level);
        if moved(tokens, st, right) {
            let named = new_id(right.state);
            binary_rest(
                tokens,
                named,
                level,
                level.node(named.id, left_node, operator, right.result->Ok_0),
            )
        } else {
            stop(tokens, right)
        }
    } else {
        good(st, left_node)
    }
}

/// An expression of a level: an operand, and the operators of the level that
/// follow it.
#[verifier::opaque]
pub open spec fn binary(tokens: Seq<SpecToken>, st: SpecParser, level: Level) -> Parsed<SpecNode>
    decreases left(tokens, st), level.rank(), 1nat,
{
    let first = operand(tokens, st, level);
    if moved(tokens, st, first) {
        binary_rest(tokens, first.state, level, first.result->Ok_0)
    } else {
        stop(tokens, first)
    }
}

/// An expression.
#[verifier::opaque]
pub open spec fn get_expression(tokens: Seq<SpecToken>, st: SpecParser) -> Parsed<SpecNode>
    decreases left(tokens, st), 20nat, 0nat,
{
    binary(tokens, st, Level::Or)
}

// ----------------------------------------------------------------------------
// Statements
// ----------------------------------------------------------------------------
/// The name token that `eat` is asked for where any name will do.
pub open spec fn any_name() -> SpecTokenType {
    SpecTokenType::Name(Seq::empty())
}

/// The message for a missing separator after a statement.
pub open spec fn separator_message() -> Seq<char> {
    "Expected a separator after the statement."@
}

/// The message for a missing `=` behind a name.
pub open spec fn assign_message(name: SpecToken) -> Seq<char> {
    "Expected '=' to assign a value to '"@ + name.value + "'"@
}

/// An expression and the separator behind it.
#[verifier::opaque]
pub open spec fn expression_statement(tokens: Seq<SpecToken>, st: SpecParser) -> Parsed<SpecNode>
    decreases left(tokens, st), 29nat, 0nat,
{
    let value = get_expression(tokens, st);
    match value.result {
        Err(_) => value,
        Ok(node) => {
            let end = eat(tokens, value.state, SpecTokenType::Separate, separator_message());
            match end.result {
                Err(_) => stop(tokens, end),
                Ok(_) => good(end.state, node),
            }
        },
    }
}

/// `return`, an expression and a separator.
#[verifier::opaque]
pub open spec fn return_statement(tokens: Seq<SpecToken>, st: SpecParser) -> Parsed<SpecNode>
    decreases left(tokens, st), 29nat, 0nat,
{
    let word = eat(tokens, st, SpecTokenType::Return, "Expected 'return'."@);
    if word.result is Err {
        stop(tokens, word)
    } else {
        let value = get_expression(tokens, word.state);
        match value.result {
            Err(_) => value,
            Ok(node) => {
                let end = eat(
                    tokens,
                    value.state,
                    SpecTokenType::Separate,
                    "Expected separator after return statement."@,
                );
                if end.result is Err {
                    stop(tokens, end)
                } else {
                    let named = new_id(end.state);
                    good(named, SpecNode::Return { id: named.id, value: Box::new(node) })
                }
            },
        }
    }
}

/// `print`, an expression and a separator: a call of the function that the
/// global table holds under that name, with the expression as its argument.
#[verifier::opaque]
pub open spec fn print(tokens: Seq<SpecToken>, st: SpecParser) -> Parsed<SpecNode>
    decreases left(tokens, st), 29nat, 0nat,
{
    let word = eat(tokens, st, SpecTokenType::Print, "Expected 'print'."@);
    if word.result is Err {
        stop(tokens, word)
    } else {
        let callee = new_id(word.state);
        let value = get_expression(tokens, callee);
        match value.result {
            Err(_) => value,
            Ok(node) => {
                let end = eat(tokens, value.state, SpecTokenType::Separate, separator_message());
                if end.result is Err {
                    stop(tokens, end)
                } else {
                    let named = new_id(end.state);
                    good(
                        named,
                        SpecNode::FnCall {
                            id: named.id,
                            name: Box::new(
                                SpecNode::Variable { id: callee.id, name: current(tokens, st) },
                            ),
                            args: seq![node],
                        },
                    )
                }
            },
        }
    }
}

/// `let`, a name, `=`, an expression and a separator.
#[verifier::opaque]
pub open spec fn declare_var(tokens: Seq<SpecToken>, st: SpecParser) -> Parsed<SpecNode>
    decreases left(tokens, st), 29nat, 0nat,
{
    let word = eat(
        tokens,
        st,
        SpecTokenType::Declare,
        "Expected 'let' in front of variable declaration."@,
    );
    if word.result is Err {
        stop(tokens, word)
    } else {
        let name = current(tokens, word.state);
        let named = eat(tokens, word.state, any_name(), "Expected a name after 'let' keyword."@);
        if named.result is Err {
            stop(tokens, named)
        } else {
            binding(tokens, named.state, name, true)
        }
    }
}

/// A name, `=`, an expression and a separator.
#[verifier::opaque]
pub open spec fn assign(tokens: Seq<SpecToken>, st: SpecParser) -> Parsed<SpecNode>
    decreases left(tokens, st), 29nat, 0nat,
{
    let name = current(tokens, st);
    let named = eat(tokens, st, any_name(), "Expected a name when assigning a value."@);
    if named.result is Err {
        stop(tokens, named)
    } else {
        binding(tokens, named.state, name, false)
    }
}

/// What follows the name in a declaration and in an assignment: `=`, an
/// expression and a separator.
#[verifier::opaque]
pub open spec fn binding(
    tokens: Seq<SpecToken>,
    st: SpecParser,
    name: SpecToken,
    declares: bool,
) -> Parsed<SpecNode>
    decreases left(tokens, st), 28nat, 0nat,
{
    let sign = eat(tokens, st, SpecTokenType::Assign, assign_message(name));
    if sign.result is Err {
        stop(tokens, sign)
    } else {
        let value = get_expression(tokens, sign.state);
        match value.result {
            Err(_) => value,
            Ok(node) => {
                let end = eat(tokens, value.state, SpecTokenType::Separate, separator_message());
                if end.result is Err {
                    stop(tokens, end)
                } else {
                    let named = new_id(end.state);
                    if declares {
                        good(named, SpecNode::Declare { id: named.id, name, value: Box::new(node) })
                    } else {
                        good(named, SpecNode::Assign { id: named.id, name, value: Box::new(node) })
                    }
                }
            },
        }
    }
}

/// A condition in parentheses, as `if` and `while` have it; the messages name
/// the statement.
#[verifier::opaque]
pub open spec fn condition(
    tokens: Seq<SpecToken>,
    st: SpecParser,
    open_message: Seq<char>,
    close_message: Seq<char>,
) -> Parsed<SpecNode>
    decreases left(tokens, st), 28nat, 0nat,
{
    let opened = eat(tokens, st, SpecTokenType::ParOpen, open_message);
    if opened.result is Err {
        stop(tokens, opened)
    } else {
        let value = get_expression(tokens, opened.state);
        match value.result {
            Err(_) => value,
            Ok(node) => {
                let closed = eat(tokens, value.state, SpecTokenType::ParClose, close_message);
                if closed.result is Err {
                    stop(tokens, closed)
                } else {
                    good(closed.state, node)
                }
            },
        }
    }
}

/// `if`, a condition in parentheses, a statement, and perhaps `else` and
/// another statement.
#[verifier::opaque]
pub open spec fn if_statement(tokens: Seq<SpecToken>, st: SpecParser) -> Parsed<SpecNode>
    decreases left(tokens, st), 29nat, 0nat,
{
    let word = eat(tokens, st, SpecTokenType::If, "Expected 'if' to starting if statement."@);
    if word.result is Err {
        stop(tokens, word)
    } else {
        let test = condition(
            tokens,
            word.state,
            "Expected open parenthesis to if statement."@,
            "Expected closing parenthesis to if statement."@,
        );
        if !moved(tokens, st, test) {
            stop(tokens, test)
        } else {
            let body = statement(tokens, test.state);
            if !moved(tokens, st, body) {
                stop(tokens, body)
            } else if current(tokens, body.state).kind is Else {
                let other = statement(tokens, next(tokens, body.state));
                match other.result {
                    Err(_) => other,
                    Ok(node) => {
                        let named = new_id(other.state);
                        good(
                            named,
                            SpecNode::If {
                                id: named.id,
                                condition: Box::new(test.result->Ok_0),
                                body: Box::new(body.result->Ok_0),
                                else_block: Some(Box::new(node)),
                            },
                        )
                    },
                }
            } else {
                let named = new_id(body.state);
                good(
                    named,
                    SpecNode::If {
                        id: named.id,
                        condition: Box::new(test.result->Ok_0),
                        body: Box::new(body.result->Ok_0),
                        else_block: None,
                    },
                )
            }
        }
    }
}

/// `while`, a condition in parentheses, and a statement.
#[verifier::opaque]
pub open spec fn while_statement(tokens: Seq<SpecToken>, st: SpecParser) -> Parsed<SpecNode>
    decreases left(tokens, st), 29nat, 0nat,
{
    let word = eat(tokens, st, SpecTokenType::While, "Expected 'while' to start of while loop."@);
    if word.result is Err {
        stop(tokens, word)
    } else {
        let test = condition(
            tokens,
            word.state,
            "Expected '(' to condition of while loop."@,
            "Expected ')' after condition of while loop."@,
        );
        if !moved(tokens, st, test) {
            stop(tokens, test)
        } else {
            let body = statement(tokens, test.state);
            match body.result {
                Err(_) => body,
                Ok(node) => {
                    let named = new_id(body.state);
                    good(
                        named,
                        SpecNode::While {
                            id: named.id,
                            condition: Box::new(test.result->Ok_0),
                            body: Box::new(node),
                        },
                    )
                },
            }
        }
    }
}

/// The parameters of a function after the first, each behind a comma.
#[verifier::opaque]
pub open spec fn parameters_rest(
    tokens: Seq<SpecToken>,
    st: SpecParser,
    args: Seq<SpecToken>,
) -> Parsed<Seq<SpecToken>>
    decreases left(tokens, st), 43nat, 0nat,
{
    if current(tokens, st).kind is Comma {
        let name = current(tokens, next(tokens, st));
        let named = eat(
            tokens,
            next(tokens, st),
            any_name(),
            "Expected a name for function arguments."@,
        );
        if moved(tokens, st, named) {
            parameters_rest(tokens, named.state, args.push(name))
        } else {
            stop(tokens, named)
        }
    } else {
        good(st, args)
    }
}

/// The parameters of a function, up to the closing parenthesis: none, or
/// names with commas between them, 150 at most.
#[verifier::opaque]
pub open spec fn parameters(tokens: Seq<SpecToken>, st: SpecParser) -> Parsed<Seq<SpecToken>> {
    if current(tokens, st).kind is ParClose {
        good(st, Seq::empty())
    } else {
        let name = current(tokens, st);
        let named = eat(tokens, st, any_name(), "Expected a name for function arguments."@);
        if named.result is Err {
            stop(tokens, named)
        } else {
            limited(tokens, parameters_rest(tokens, named.state, seq![name]))
        }
    }
}

/// A list of parameters, refused if it is longer than 150.
pub open spec fn limited(tokens: Seq<SpecToken>, all: Parsed<Seq<SpecToken>>) -> Parsed<
    Seq<SpecToken>,
> {
    match all.result {
        Err(_) => all,
        Ok(args) => if args.len() > 150 {
            bad(tokens, all.state, "Cannot have more than 150 arguments in a function declaration."@)
        } else {
            all
        },
    }
}

/// What stands before the body of a function declaration: `fn`, a name, and
/// the parameters in parentheses.
#[verifier::opaque]
pub open spec fn function_head(tokens: Seq<SpecToken>, st: SpecParser) -> Parsed<
    (SpecToken, Seq<SpecToken>),
> {
    let word = eat(
        tokens,
        st,
        SpecTokenType::FuncDeclare,
        "Expected 'fn' to start a function declaration."@,
    );
    if word.result is Err {
        stop(tokens, word)
    } else {
        let name = current(tokens, word.state);
        let named = eat(
            tokens,
            word.state,
            any_name(),
            "Expected a name for the function declaration."@,
        );
        if named.result is Err {
            stop(tokens, named)
        } else {
            let opened = eat(
                tokens,
                named.state,
                SpecTokenType::ParOpen,
                "Expected an open parenthesis for the function declaration."@,
            );
            if opened.result is Err {
                stop(tokens, opened)
            } else {
                let args = parameters(tokens, opened.state);
                match args.result {
                    Err(_) => stop(tokens, args),
                    Ok(list) => {
                        let closed = eat(
                            tokens,
                            args.state,
                            SpecTokenType::ParClose,
                            "Expected closing parenthesis to function declaration."@,
                        );
                        if closed.result is Err {
                            stop(tokens, closed)
                        } else {
                            good(closed.state, (name, list))
                        }
                    },
                }
            }
        }
    }
}

/// A function declaration: its head, and a statement as its body.
#[verifier::opaque]
pub open spec fn declare_fn(tokens: Seq<SpecToken>, st: SpecParser) -> Parsed<SpecNode>
    decreases left(tokens, st), 29nat, 0nat,
{
    let head = function_head(tokens, st);
    if !moved(tokens, st, head) {
        stop(tokens, head)
    } else {
        let body = statement(tokens, head.state);
        match body.result {
            Err(_) => body,
            Ok(node) => {
                let named = new_id(body.state);
                good(
                    named,
                    SpecNode::DeclareFn {
                        id: named.id,
                        name: head.result->Ok_0.0,
                        args: head.result->Ok_0.1,
                        body: Box::new(node),
                    },
                )
            },
        }
    }
}

/// The statements of a block after its opening bracket, up to and with the
/// closing bracket.
#[verifier::opaque]
pub open spec fn block_rest(tokens: Seq<SpecToken>, st: SpecParser, nodes: Seq<SpecNode>) -> Parsed<
    SpecNode,
>
    decreases left(tokens, st), 44nat, 0nat,
{
    if current(tokens, st).kind is BrackClose {
        good(next(tokens, st), SpecNode::Block(nodes))
    } else {
        let one = statement(tokens, st);
        if moved(tokens, st, one) {
            block_rest(tokens, one.state, nodes.push(one.result->Ok_0))
        } else {
            stop(tokens, one)
        }
    }
}

/// A block: statements in brackets.
#[verifier::opaque]
pub open spec fn code_block(tokens: Seq<SpecToken>, st: SpecParser) -> Parsed<SpecNode>
    decreases left(tokens, st), 29nat, 0nat,
{
    let opened = eat(tokens, st, SpecTokenType::BrackOpen, "Expected open bracket to code block."@);
    if opened.result is Err {
        stop(tokens, opened)
    } else {
        block_rest(tokens, opened.state, Seq::empty())
    }
}

/// A statement, told by its first token; a name is an assignment if `=`
/// follows it, and else begins an expression.
#[verifier::opaque]
pub open spec fn statement(tokens: Seq<SpecToken>, st: SpecParser) -> Parsed<SpecNode>
    decreases left(tokens, st), 30nat, 0nat,
{
    match current(tokens, st).kind {
        SpecTokenType::Declare => declare_var(tokens, st),
        SpecTokenType::Name(_) => {
            if peek(tokens, st) is Some && peek(tokens, st)->Some_0.kind is Assign {
                assign(tokens, st)
            } else {
                expression_statement(tokens, st)
            }
        },
        SpecTokenType::If => if_statement(tokens, st),
        SpecTokenType::While => while_statement(tokens, st),
        SpecTokenType::For => bad(tokens, st, "For loops are not supported."@),
        SpecTokenType::Print => print(tokens, st),
        SpecTokenType::BrackOpen => code_block(tokens, st),
        SpecTokenType::FuncDeclare => declare_fn(tokens, st),
        SpecTokenType::Return => return_statement(tokens, st),
        _ => expression_statement(tokens, st),
    }
}

/// The statements of a program, up to the end of the input.
#[verifier::opaque]
pub open spec fn program_rest(
    tokens: Seq<SpecToken>,
    st: SpecParser,
    nodes: Seq<SpecNode>,
) -> Parsed<Seq<SpecNode>>
    decreases left(tokens, st), 45nat, 0nat,
{
    if current(tokens, st).kind is Eof {
        good(st, nodes)
    } else {
        let one = statement(tokens, st);
        if moved(tokens, st, one) {
            program_rest(tokens, one.state, nodes.push(one.result->Ok_0))
        } else {
            stop(tokens, one)
        }
    }
}

/// A program: statements up to the end of the input.
#[verifier::opaque]
pub open spec fn parse(tokens: Seq<SpecToken>, st: SpecParser) -> Parsed<Seq<SpecNode>> {
    program_rest(tokens, st, Seq::empty())
}

} // verus!
