//! What holds of every parse: one that succeeds has taken a token. The grammar
//! guards each repetition by asking that the part before it moved on, and gives
//! a message of its own where a part did not; by these laws that message is
//! never given, and every guard asks no more than that the part succeeded.

use vstd::prelude::*;
use crate::token::{SpecToken, SpecTokenType};
use crate::ast::SpecNode;
use crate::grammar::{
    SpecParser, Parsed, Level, current, next, new_id, eat, moved, left, any_name, assign_message,
    primary, arguments_rest, call_rest, call, unary, operand, binary_rest, binary, get_expression,
    expression_statement, return_statement, print, declare_var, assign, binding, condition,
    if_statement, while_statement, parameters_rest, parameters, function_head, declare_fn,
    block_rest, code_block, statement, program_rest, parse,
};
use crate::grammar_lemmas::{
    unfold_primary, unfold_arguments_rest, unfold_call_rest, unfold_call, unfold_unary,
    unfold_operand, unfold_binary_rest, unfold_binary, unfold_get_expression,
    unfold_expression_statement, unfold_return_statement, unfold_print, unfold_declare_var,
    unfold_assign, unfold_binding, unfold_condition, unfold_if_statement, unfold_while_statement,
    unfold_parameters_rest, unfold_parameters, unfold_function_head, unfold_declare_fn,
    unfold_block_rest, unfold_code_block, unfold_statement, unfold_program_rest, unfold_parse,
};

verus! {

/// Whether a parse that began at a state took a token if it succeeded, and
/// took no identifier back.
pub open spec fn took<T>(tokens: Seq<SpecToken>, from: SpecParser, parsed: Parsed<T>) -> bool {
    parsed.result is Ok ==> moved(tokens, from, parsed) && from.id <= parsed.state.id
}

/// Whether a parse that began at a state went back neither in the tokens nor
/// in the identifiers if it succeeded.
pub open spec fn kept<T>(from: SpecParser, parsed: Parsed<T>) -> bool {
    parsed.result is Ok ==> from.pos <= parsed.state.pos && from.id <= parsed.state.id
}

pub(crate) proof fn lemma_primary(tokens: Seq<SpecToken>, st: SpecParser)
    ensures
        took(tokens, st, primary(tokens, st)),
    decreases left(tokens, st), 11nat, 0nat,
{
    unfold_primary(tokens, st);
    if current(tokens, st).kind is ParOpen {
        lemma_expression(tokens, next(tokens, new_id(st)));
    }
}

pub(crate) proof fn lemma_arguments_rest(tokens: Seq<SpecToken>, st: SpecParser, args: Seq<SpecNode>)
    ensures
        kept(st, arguments_rest(tokens, st, args)),
    decreases left(tokens, st), 40nat, 0nat,
{
    unfold_arguments_rest(tokens, st, args);
    if current(tokens, st).kind is Comma {
        let one = get_expression(tokens, next(tokens, st));
        lemma_expression(tokens, next(tokens, st));
        if moved(tokens, st, one) {
            lemma_arguments_rest(tokens, one.state, args.push(one.result->Ok_0));
        }
    }
}

pub(crate) proof fn lemma_call_rest(tokens: Seq<SpecToken>, st: SpecParser, callee: SpecNode)
    ensures
        kept(st, call_rest(tokens, st, callee)),
    decreases left(tokens, st), 41nat, 0nat,
{
    unfold_call_rest(tokens, st, callee);
    if current(tokens, st).kind is ParOpen {
        let opened = next(tokens, st);
        if current(tokens, opened).kind is ParClose {
            let named = new_id(next(tokens, opened));
            lemma_call_rest(
                tokens,
                named,
                SpecNode::FnCall { id: named.id, name: Box::new(callee), args: Seq::empty() },
            );
        } else {
            let first = get_expression(tokens, opened);
            lemma_expression(tokens, opened);
            if moved(tokens, st, first) {
                let all = arguments_rest(tokens, first.state, seq![first.result->Ok_0]);
                lemma_arguments_rest(tokens, first.state, seq![first.result->Ok_0]);
                if moved(tokens, st, all) {
                    let closed = eat(
                        tokens,
                        all.state,
                        SpecTokenType::ParClose,
                        "Expected closing parenthesis after argument list."@,
                    );
                    if moved(tokens, st, closed) {
                        let named = new_id(closed.state);
                        lemma_call_rest(
                            tokens,
                            named,
                            SpecNode::FnCall {
                                id: named.id,
                                name: Box::new(callee),
                                args: all.result->Ok_0,
                            },
                        );
                    }
                }
            }
        }
    }
}

proof fn lemma_call(tokens: Seq<SpecToken>, st: SpecParser)
    ensures
        took(tokens, st, call(tokens, st)),
    decreases left(tokens, st), 12nat, 0nat,
{
    unfold_call(tokens, st);
    lemma_primary(tokens, st);
    let callee = primary(tokens, st);
    if moved(tokens, st, callee) {
        lemma_call_rest(tokens, callee.state, callee.result->Ok_0);
    }
}

pub(crate) proof fn lemma_unary(tokens: Seq<SpecToken>, st: SpecParser)
    ensures
        took(tokens, st, unary(tokens, st)),
    decreases left(tokens, st), 13nat, 0nat,
{
    unfold_unary(tokens, st);
    let operator = current(tokens, st);
    if operator.kind is Not || operator.kind is Minus {
        lemma_unary(tokens, next(tokens, st));
    } else {
        lemma_call(tokens, st);
    }
}

pub(crate) proof fn lemma_operand(tokens: Seq<SpecToken>, st: SpecParser, level: Level)
    ensures
        took(tokens, st, operand(tokens, st, level)),
    decreases left(tokens, st), level.rank(), 0nat,
{
    unfold_operand(tokens, st, level);
    match level {
        Level::Or => lemma_binary(tokens, st, Level::And),
        Level::And => lemma_binary(tokens, st, Level::Equality),
        Level::Equality => lemma_binary(tokens, st, Level::Comparison),
        Level::Comparison => lemma_binary(tokens, st, Level::Term),
        Level::Term => lemma_binary(tokens, st, Level::Factor),
        Level::Factor => lemma_unary(tokens, st),
    }
}

pub(crate) proof fn lemma_binary_rest(tokens: Seq<SpecToken>, st: SpecParser, level: Level, node: SpecNode)
    ensures
        kept(st, binary_rest(tokens, st, level, node)),
    decreases left(tokens, st), 42nat, 0nat,
{
    unfold_binary_rest(tokens, st, level, node);
    let operator = current(tokens, st);
    if level.holds(operator.kind) {
        let right = operand(tokens, next(tokens, st), level);
        lemma_operand(tokens, next(tokens, st), level);
        if moved(tokens, st, right) {
            let named = new_id(right.state);
            lemma_binary_rest(
                tokens,
                named,
                level,
                level.node(named.id, node, operator, right.result->Ok_0),
            );
        }
    }
}

proof fn lemma_binary(tokens: Seq<SpecToken>, st: SpecParser, level: Level)
    ensures
        took(tokens, st, binary(tokens, st, level)),
    decreases left(tokens, st), level.rank(), 1nat,
{
    unfold_binary(tokens, st, level);
    lemma_operand(tokens, st, level);
    let first = operand(tokens, st, level);
    if moved(tokens, st, first) {
        lemma_binary_rest(tokens, first.state, level, first.result->Ok_0);
    }
}

pub(crate) proof fn lemma_expression(tokens: Seq<SpecToken>, st: SpecParser)
    ensures
        took(tokens, st, get_expression(tokens, st)),
    decreases left(tokens, st), 20nat, 0nat,
{
    unfold_get_expression(tokens, st);
    lemma_binary(tokens, st, Level::Or);
}

proof fn lemma_expression_statement(tokens: Seq<SpecToken>, st: SpecParser)
    ensures
        took(tokens, st, expression_statement(tokens, st)),
{
    unfold_expression_statement(tokens, st);
    lemma_expression(tokens, st);
}

proof fn lemma_return_statement(tokens: Seq<SpecToken>, st: SpecParser)
    ensures
        took(tokens, st, return_statement(tokens, st)),
{
    unfold_return_statement(tokens, st);
    let word = eat(tokens, st, SpecTokenType::Return, "Expected 'return'."@);
    lemma_expression(tokens, word.state);
}

proof fn lemma_print(tokens: Seq<SpecToken>, st: SpecParser)
    ensures
        took(tokens, st, print(tokens, st)),
{
    unfold_print(tokens, st);
    let word = eat(tokens, st, SpecTokenType::Print, "Expected 'print'."@);
    lemma_expression(tokens, new_id(word.state));
}

pub(crate) proof fn lemma_binding(tokens: Seq<SpecToken>, st: SpecParser, name: SpecToken, declares: bool)
    ensures
        took(tokens, st, binding(tokens, st, name, declares)),
{
    unfold_binding(tokens, st, name, declares);
    let sign = eat(tokens, st, SpecTokenType::Assign, assign_message(name));
    lemma_expression(tokens, sign.state);
}

proof fn lemma_declare_var(tokens: Seq<SpecToken>, st: SpecParser)
    ensures
        took(tokens, st, declare_var(tokens, st)),
{
    unfold_declare_var(tokens, st);
    let word = eat(
        tokens,
        st,
        SpecTokenType::Declare,
        "Expected 'let' in front of variable declaration."@,
    );
    let name = current(tokens, word.state);
    let named = eat(tokens, word.state, any_name(), "Expected a name after 'let' keyword."@);
    lemma_binding(tokens, named.state, name, true);
}

proof fn lemma_assign(tokens: Seq<SpecToken>, st: SpecParser)
    ensures
        took(tokens, st, assign(tokens, st)),
{
    unfold_assign(tokens, st);
    let name = current(tokens, st);
    let named = eat(tokens, st, any_name(), "Expected a name when assigning a value."@);
    lemma_binding(tokens, named.state, name, false);
}

pub(crate) proof fn lemma_condition(
    tokens: Seq<SpecToken>,
    st: SpecParser,
    open_message: Seq<char>,
    close_message: Seq<char>,
)
    ensures
        took(tokens, st, condition(tokens, st, open_message, close_message)),
{
    unfold_condition(tokens, st, open_message, close_message);
    let opened = eat(tokens, st, SpecTokenType::ParOpen, open_message);
    lemma_expression(tokens, opened.state);
}

proof fn lemma_if_statement(tokens: Seq<SpecToken>, st: SpecParser)
    ensures
        took(tokens, st, if_statement(tokens, st)),
    decreases left(tokens, st), 29nat, 0nat,
{
    unfold_if_statement(tokens, st);
    let word = eat(tokens, st, SpecTokenType::If, "Expected 'if' to starting if statement."@);
    if word.result is Ok {
        let test = condition(
            tokens,
            word.state,
            "Expected open parenthesis to if statement."@,
            "Expected closing parenthesis to if statement."@,
        );
        lemma_condition(
            tokens,
            word.state,
            "Expected open parenthesis to if statement."@,
            "Expected closing parenthesis to if statement."@,
        );
        if moved(tokens, st, test) {
            let body = statement(tokens, test.state);
            lemma_statement(tokens, test.state);
            if moved(tokens, st, body) && current(tokens, body.state).kind is Else {
                lemma_statement(tokens, next(tokens, body.state));
            }
        }
    }
}

proof fn lemma_while_statement(tokens: Seq<SpecToken>, st: SpecParser)
    ensures
        took(tokens, st, while_statement(tokens, st)),
    decreases left(tokens, st), 29nat, 0nat,
{
    unfold_while_statement(tokens, st);
    let word = eat(tokens, st, SpecTokenType::While, "Expected 'while' to start of while loop."@);
    if word.result is Ok {
        let test = condition(
            tokens,
            word.state,
            "Expected '(' to condition of while loop."@,
            "Expected ')' after condition of while loop."@,
        );
        lemma_condition(
            tokens,
            word.state,
            "Expected '(' to condition of while loop."@,
            "Expected ')' after condition of while loop."@,
        );
        if moved(tokens, st, test) {
            lemma_statement(tokens, test.state);
        }
    }
}

proof fn lemma_parameters_rest(tokens: Seq<SpecToken>, st: SpecParser, args: Seq<SpecToken>)
    ensures
        kept(st, parameters_rest(tokens, st, args)),
    decreases left(tokens, st), 43nat, 0nat,
{
    unfold_parameters_rest(tokens, st, args);
    if current(tokens, st).kind is Comma {
        let name = current(tokens, next(tokens, st));
        let named = eat(
            tokens,
            next(tokens, st),
            any_name(),
            "Expected a name for function arguments."@,
        );
        if moved(tokens, st, named) {
            lemma_parameters_rest(tokens, named.state, args.push(name));
        }
    }
}

proof fn lemma_parameters(tokens: Seq<SpecToken>, st: SpecParser)
    ensures
        kept(st, parameters(tokens, st)),
{
    unfold_parameters(tokens, st);
    if !(current(tokens, st).kind is ParClose) {
        let name = current(tokens, st);
        let named = eat(tokens, st, any_name(), "Expected a name for function arguments."@);
        if named.result is Ok {
            lemma_parameters_rest(tokens, named.state, seq![name]);
        }
    }
}

pub(crate) proof fn lemma_function_head(tokens: Seq<SpecToken>, st: SpecParser)
    ensures
        took(tokens, st, function_head(tokens, st)),
{
    unfold_function_head(tokens, st);
    let word = eat(
        tokens,
        st,
        SpecTokenType::FuncDeclare,
        "Expected 'fn' to start a function declaration."@,
    );
    if word.result is Ok {
        let named = eat(
            tokens,
            word.state,
            any_name(),
            "Expected a name for the function declaration."@,
        );
        if named.result is Ok {
            let opened = eat(
                tokens,
                named.state,
                SpecTokenType::ParOpen,
                "Expected an open parenthesis for the function declaration."@,
            );
            if opened.result is Ok {
                lemma_parameters(tokens, opened.state);
            }
        }
    }
}

proof fn lemma_declare_fn(tokens: Seq<SpecToken>, st: SpecParser)
    ensures
        took(tokens, st, declare_fn(tokens, st)),
    decreases left(tokens, st), 29nat, 0nat,
{
    unfold_declare_fn(tokens, st);
    lemma_function_head(tokens, st);
    let head = function_head(tokens, st);
    if moved(tokens, st, head) {
        lemma_statement(tokens, head.state);
    }
}

pub(crate) proof fn lemma_block_rest(tokens: Seq<SpecToken>, st: SpecParser, nodes: Seq<SpecNode>)
    ensures
        took(tokens, st, block_rest(tokens, st, nodes)),
    decreases left(tokens, st), 44nat, 0nat,
{
    unfold_block_rest(tokens, st, nodes);
    if !(current(tokens, st).kind is BrackClose) {
        let one = statement(tokens, st);
        lemma_statement(tokens, st);
        if moved(tokens, st, one) {
            lemma_block_rest(tokens, one.state, nodes.push(one.result->Ok_0));
        }
    }
}

proof fn lemma_code_block(tokens: Seq<SpecToken>, st: SpecParser)
    ensures
        took(tokens, st, code_block(tokens, st)),
    decreases left(tokens, st), 29nat, 0nat,
{
    unfold_code_block(tokens, st);
    let opened = eat(tokens, st, SpecTokenType::BrackOpen, "Expected open bracket to code block."@);
    if opened.result is Ok {
        lemma_block_rest(tokens, opened.state, Seq::empty());
    }
}

pub(crate) proof fn lemma_statement(tokens: Seq<SpecToken>, st: SpecParser)
    ensures
        took(tokens, st, statement(tokens, st)),
    decreases left(tokens, st), 30nat, 0nat,
{
    unfold_statement(tokens, st);
    match current(tokens, st).kind {
        SpecTokenType::Declare => lemma_declare_var(tokens, st),
        SpecTokenType::Name(_) => {
            lemma_assign(tokens, st);
            lemma_expression_statement(tokens, st);
        },
        SpecTokenType::If => lemma_if_statement(tokens, st),
        SpecTokenType::While => lemma_while_statement(tokens, st),
        SpecTokenType::For => {},
        SpecTokenType::Print => lemma_print(tokens, st),
        SpecTokenType::BrackOpen => lemma_code_block(tokens, st),
        SpecTokenType::FuncDeclare => lemma_declare_fn(tokens, st),
        SpecTokenType::Return => lemma_return_statement(tokens, st),
        _ => lemma_expression_statement(tokens, st),
    }
}

/// An expression that parses has taken a token: its parse ends behind where it
/// began.
pub proof fn law_expression_takes_a_token(tokens: Seq<SpecToken>, st: SpecParser)
    ensures
        took(tokens, st, get_expression(tokens, st)),
{
    lemma_expression(tokens, st);
}

/// A statement that parses has taken a token: its parse ends behind where it
/// began.
pub proof fn law_statement_takes_a_token(tokens: Seq<SpecToken>, st: SpecParser)
    ensures
        took(tokens, st, statement(tokens, st)),
{
    lemma_statement(tokens, st);
}

/// A program that parses has been read to its end: the parse ends at the token
/// that ends the input, or where the tokens end.
pub proof fn law_program_is_read_to_its_end(tokens: Seq<SpecToken>, st: SpecParser)
    ensures
        parse(tokens, st).result is Ok ==> current(tokens, parse(tokens, st).state).kind is Eof,
{
    unfold_parse(tokens, st);
    lemma_program_rest(tokens, st, Seq::empty());
}

/// The statements of a program go back neither in the tokens nor in the
/// identifiers.
pub(crate) proof fn lemma_program_rest_kept(tokens: Seq<SpecToken>, st: SpecParser, nodes: Seq<SpecNode>)
    ensures
        kept(st, program_rest(tokens, st, nodes)),
    decreases left(tokens, st), 45nat, 0nat,
{
    unfold_program_rest(tokens, st, nodes);
    if !(current(tokens, st).kind is Eof) {
        let one = statement(tokens, st);
        lemma_statement(tokens, st);
        if moved(tokens, st, one) {
            lemma_program_rest_kept(tokens, one.state, nodes.push(one.result->Ok_0));
        }
    }
}

proof fn lemma_program_rest(tokens: Seq<SpecToken>, st: SpecParser, nodes: Seq<SpecNode>)
    ensures
        program_rest(tokens, st, nodes).result is Ok ==> current(
            tokens,
            program_rest(tokens, st, nodes).state,
        ).kind is Eof,
    decreases left(tokens, st), 45nat, 0nat,
{
    unfold_program_rest(tokens, st, nodes);
    if !(current(tokens, st).kind is Eof) {
        let one = statement(tokens, st);
        if moved(tokens, st, one) {
            lemma_program_rest(tokens, one.state, nodes.push(one.result->Ok_0));
        }
    }
}

} // verus!
