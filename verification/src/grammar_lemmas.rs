//! Each function of the grammar is what its definition says. The functions
//! are opaque, so that a proof sees one definition at a time; these lemmas hand
//! a proof the definition that it asks for.

use vstd::prelude::*;
use crate::ast::{SpecNode, SpecLiteral};
use crate::token::{SpecToken, SpecTokenType};
use crate::grammar::{
    SpecParser, Level, current, peek, next, new_id, good, bad, stop, moved, eat, any_name,
    separator_message, assign_message, limited, primary, arguments_rest, call_rest, call, unary,
    operand, binary_rest, binary, get_expression, expression_statement, return_statement, print,
    declare_var, assign, binding, condition, if_statement, while_statement, parameters_rest,
    parameters, function_head, declare_fn, block_rest, code_block, statement, program_rest, parse,
};

verus! {

/// The definition of `primary`.
pub proof fn unfold_primary(tokens: Seq<SpecToken>, st: SpecParser)
    ensures
        primary(tokens, st) == ({
            let first = new_id(st);
            let token = current(tokens, st);
            match token.kind {
                SpecTokenType::Number(bits) => good(
                    next(tokens, first),
                    SpecNode::Literal { id: first.id, value: SpecLiteral::Number(bits) },
                ),
                SpecTokenType::Bool(b) => good(
                    next(tokens, first),
                    SpecNode::Literal { id: first.id, value: SpecLiteral::Bool(b) },
                ),
                SpecTokenType::String(text) => good(
                    next(tokens, first),
                    SpecNode::Literal { id: first.id, value: SpecLiteral::String(text) },
                ),
                SpecTokenType::ParOpen => {
                    let inner = get_expression(tokens, next(tokens, first));
                    match inner.result {
                        Ok(node) => good(next(tokens, inner.state), node),
                        Err(_) => inner,
                    }
                },
                SpecTokenType::Nothing => {
                    let second = new_id(first);
                    good(
                        next(tokens, second),
                        SpecNode::Literal { id: second.id, value: SpecLiteral::Nothing },
                    )
                },
                SpecTokenType::Name(_) => {
                    let second = new_id(first);
                    good(next(tokens, second), SpecNode::Variable { id: second.id, name: token })
                },
                _ => bad(tokens, first, "Couldn't identify this token: '"@ + token.value + "'"@),
            }
        }),
{
    reveal(primary);
    reveal(arguments_rest);
    reveal(call_rest);
    reveal(call);
    reveal(unary);
    reveal(operand);
    reveal(binary_rest);
    reveal(binary);
    reveal(get_expression);
}

/// The definition of `arguments_rest`.
pub proof fn unfold_arguments_rest(tokens: Seq<SpecToken>, st: SpecParser, args: Seq<SpecNode>)
    ensures
        arguments_rest(tokens, st, args) == ({
            if current(tokens, st).kind is Comma {
                let one = get_expression(tokens, next(tokens, st));
                if moved(tokens, st, one) {
                    arguments_rest(tokens, one.state, args.push(one.result->Ok_0))
                } else {
                    stop(tokens, one)
                }
            } else {
                good(st, args)
            }
        }),
{
    reveal(primary);
    reveal(arguments_rest);
    reveal(call_rest);
    reveal(call);
    reveal(unary);
    reveal(operand);
    reveal(binary_rest);
    reveal(binary);
    reveal(get_expression);
}

/// The definition of `call_rest`.
pub proof fn unfold_call_rest(tokens: Seq<SpecToken>, st: SpecParser, callee: SpecNode)
    ensures
        call_rest(tokens, st, callee) == ({
            if current(tokens, st).kind is ParOpen {
                let opened = next(tokens, st);
                if current(tokens, opened).kind is ParClose {
                    let named = new_id(next(tokens, opened));
                    call_rest(
                        tokens,
                        named,
                        SpecNode::FnCall { id: named.id, name: Box::new(callee), args: Seq::empty() },
                    )
                } else {
                    let first = get_expression(tokens, opened);
                    if moved(tokens, st, first) {
                        let all = arguments_rest(tokens, first.state, seq![first.result->Ok_0]);
                        if moved(tokens, st, all) {
                            let closed = eat(
                                tokens,
                                all.state,
                                SpecTokenType::ParClose,
                                "Expected closing parenthesis after argument list."@,
                            );
                            if moved(tokens, st, closed) {
                                let named = new_id(closed.state);
                                call_rest(
                                    tokens,
                                    named,
                                    SpecNode::FnCall {
                                        id: named.id,
                                        name: Box::new(callee),
                                        args: all.result->Ok_0,
                                    },
                                )
                            } else {
                                stop(tokens, closed)
                            }
                        } else {
                            stop(tokens, all)
                        }
                    } else {
                        stop(tokens, first)
                    }
                }
            } else {
                good(st, callee)
            }
        }),
{
    reveal(primary);
    reveal(arguments_rest);
    reveal(call_rest);
    reveal(call);
    reveal(unary);
    reveal(operand);
    reveal(binary_rest);
    reveal(binary);
    reveal(get_expression);
}

/// The definition of `call`.
pub proof fn unfold_call(tokens: Seq<SpecToken>, st: SpecParser)
    ensures
        call(tokens, st) == ({
            let callee = primary(tokens, st);
            if moved(tokens, st, callee) {
                call_rest(tokens, callee.state, callee.result->Ok_0)
            } else {
                stop(tokens, callee)
            }
        }),
{
    reveal(primary);
    reveal(arguments_rest);
    reveal(call_rest);
    reveal(call);
    reveal(unary);
    reveal(operand);
    reveal(binary_rest);
    reveal(binary);
    reveal(get_expression);
}

/// The definition of `unary`.
pub proof fn unfold_unary(tokens: Seq<SpecToken>, st: SpecParser)
    ensures
        unary(tokens, st) == ({
            let operator = current(tokens, st);
            if operator.kind is Not || operator.kind is Minus {
                let child = unary(tokens, next(tokens, st));
                match child.result {
                    Ok(node) => {
                        let named = new_id(child.state);
                        good(
                            named,
                            SpecNode::UnaryOperator { id: named.id, operator, child: Box::new(node) },
                        )
                    },
                    Err(_) => child,
                }
            } else {
                call(tokens, st)
            }
        }),
{
    reveal(primary);
    reveal(arguments_rest);
    reveal(call_rest);
    reveal(call);
    reveal(unary);
    reveal(operand);
    reveal(binary_rest);
    reveal(binary);
    reveal(get_expression);
}

/// The definition of `operand`.
pub proof fn unfold_operand(tokens: Seq<SpecToken>, st: SpecParser, level: Level)
    ensures
        operand(tokens, st, level) == ({
            match level {
                Level::Or => binary(tokens, st, Level::And),
                Level::And => binary(tokens, st, Level::Equality),
                Level::Equality => binary(tokens, st, Level::Comparison),
                Level::Comparison => binary(tokens, st, Level::Term),
                Level::Term => binary(tokens, st, Level::Factor),
                Level::Factor => unary(tokens, st),
            }
        }),
{
    reveal(primary);
    reveal(arguments_rest);
    reveal(call_rest);
    reveal(call);
    reveal(unary);
    reveal(operand);
    reveal(binary_rest);
    reveal(binary);
    reveal(get_expression);
}

/// The definition of `binary_rest`.
pub proof fn unfold_binary_rest(
    tokens: Seq<SpecToken>,
    st: SpecParser,
    level: Level,
    left_node: SpecNode,
)
    ensures
        binary_rest(tokens, st, level, left_node) == ({
            let operator = current(tokens, st);
            if level.holds(operator.kind) {
                let right = operand(tokens, next(tokens, st), level);
                if moved(tokens, st, right) {
                    let named = new_id(right.state);
                    binary_rest(
                        tokens,
                        named,
                        level,
                        level.node(named.id, left_node, operator, right.result->Ok_0),
                    )
                } else {
                    stop(tokens, right)
                }
            } else {
                good(st, left_node)
            }
        }),
{
    reveal(primary);
    reveal(arguments_rest);
    reveal(call_rest);
    reveal(call);
    reveal(unary);
    reveal(operand);
    reveal(binary_rest);
    reveal(binary);
    reveal(get_expression);
}

/// The definition of `binary`.
pub proof fn unfold_binary(tokens: Seq<SpecToken>, st: SpecParser, level: Level)
    ensures
        binary(tokens, st, level) == ({
            let first = operand(tokens, st, level);
            if moved(tokens, st, first) {
                binary_rest(tokens, first.state, level, first.result->Ok_0)
            } else {
                stop(tokens, first)
            }
        }),
{
    reveal(primary);
    reveal(arguments_rest);
    reveal(call_rest);
    reveal(call);
    reveal(unary);
    reveal(operand);
    reveal(binary_rest);
    reveal(binary);
    reveal(get_expression);
}

/// The definition of `get_expression`.
pub proof fn unfold_get_expression(tokens: Seq<SpecToken>, st: SpecParser)
    ensures
        get_expression(tokens, st) == ({
            binary(tokens, st, Level::Or)
        }),
{
    reveal(primary);
    reveal(arguments_rest);
    reveal(call_rest);
    reveal(call);
    reveal(unary);
    reveal(operand);
    reveal(binary_rest);
    reveal(binary);
    reveal(get_expression);
}

/// The definition of `expression_statement`.
pub proof fn unfold_expression_statement(tokens: Seq<SpecToken>, st: SpecParser)
    ensures
        expression_statement(tokens, st) == ({
            let value = get_expression(tokens, st);
            match value.result {
                Err(_) => value,
                Ok(node) => {
                    let end = eat(tokens, value.state, SpecTokenType::Separate, separator_message());
                    match end.result {
                        Err(_) => stop(tokens, end),
                        Ok(_) => good(end.state, node),
                    }
                },
            }
        }),
{
    reveal(expression_statement);
}

/// The definition of `return_statement`.
pub proof fn unfold_return_statement(tokens: Seq<SpecToken>, st: SpecParser)
    ensures
        return_statement(tokens, st) == ({
            let word = eat(tokens, st, SpecTokenType::Return, "Expected 'return'."@);
            if word.result is Err {
                stop(tokens, word)
            } else {
                let value = get_expression(tokens, word.state);
                match value.result {
                    Err(_) => value,
                    Ok(node) => {
                        let end = eat(
                            tokens,
                            value.state,
                            SpecTokenType::Separate,
                            "Expected separator after return statement."@,
                        );
                        if end.result is Err {
                            stop(tokens, end)
                        } else {
                            let named = new_id(end.state);
                            good(named, SpecNode::Return { id: named.id, value: Box::new(node) })
                        }
                    },
                }
            }
        }),
{
    reveal(return_statement);
}

/// The definition of `print`.
pub proof fn unfold_print(tokens: Seq<SpecToken>, st: SpecParser)
    ensures
        print(tokens, st) == ({
            let word = eat(tokens, st, SpecTokenType::Print, "Expected 'print'."@);
            if word.result is Err {
                stop(tokens, word)
            } else {
                let callee = new_id(word.state);
                let value = get_expression(tokens, callee);
                match value.result {
                    Err(_) => value,
                    Ok(node) => {
                        let end = eat(tokens, value.state, SpecTokenType::Separate, separator_message());
                        if end.result is Err {
                            stop(tokens, end)
                        } else {
                            let named = new_id(end.state);
                            good(
                                named,
                                SpecNode::FnCall {
                                    id: named.id,
                                    name: Box::new(
                                        SpecNode::Variable { id: callee.id, name: current(tokens, st) },
                                    ),
                                    args: seq![node],
                                },
                            )
                        }
                    },
                }
            }
        }),
{
    reveal(print);
}

/// The definition of `declare_var`.
pub proof fn unfold_declare_var(tokens: Seq<SpecToken>, st: SpecParser)
    ensures
        declare_var(tokens, st) == ({
            let word = eat(
                tokens,
                st,
                SpecTokenType::Declare,
                "Expected 'let' in front of variable declaration."@,
            );
            if word.result is Err {
                stop(tokens, word)
            } else {
                let name = current(tokens, word.state);
                let named = eat(tokens, word.state, any_name(), "Expected a name after 'let' keyword."@);
                if named.result is Err {
                    stop(tokens, named)
                } else {
                    binding(tokens, named.state, name, true)
                }
            }
        }),
{
    reveal(declare_var);
}

/// The definition of `assign`.
pub proof fn unfold_assign(tokens: Seq<SpecToken>, st: SpecParser)
    ensures
        assign(tokens, st) == ({
            let name = current(tokens, st);
            let named = eat(tokens, st, any_name(), "Expected a name when assigning a value."@);
            if named.result is Err {
                stop(tokens, named)
            } else {
                binding(tokens, named.state, name, false)
            }
        }),
{
    reveal(assign);
}

/// The definition of `binding`.
pub proof fn unfold_binding(tokens: Seq<SpecToken>, st: SpecParser, name: SpecToken, declares: bool)
    ensures
        binding(tokens, st, name, declares) == ({
            let sign = eat(tokens, st, SpecTokenType::Assign, assign_message(name));
            if sign.result is Err {
                stop(tokens, sign)
            } else {
                let value = get_expression(tokens, sign.state);
                match value.result {
                    Err(_) => value,
                    Ok(node) => {
                        let end = eat(tokens, value.state, SpecTokenType::Separate, separator_message());
                        if end.result is Err {
                            stop(tokens, end)
                        } else {
                            let named = new_id(end.state);
                            if declares {
                                good(named, SpecNode::Declare { id: named.id, name, value: Box::new(node) })
                            } else {
                                good(named, SpecNode::Assign { id: named.id, name, value: Box::new(node) })
                            }
                        }
                    },
                }
            }
        }),
{
    reveal(binding);
}

/// The definition of `condition`.
pub proof fn unfold_condition(
    tokens: Seq<SpecToken>,
    st: SpecParser,
    open_message: Seq<char>,
    close_message: Seq<char>,
)
    ensures
        condition(tokens, st, open_message, close_message) == ({
            let opened = eat(tokens, st, SpecTokenType::ParOpen, open_message);
            if opened.result is Err {
                stop(tokens, opened)
            } else {
                let value = get_expression(tokens, opened.state);
                match value.result {
                    Err(_) => value,
                    Ok(node) => {
                        let closed = eat(tokens, value.state, SpecTokenType::ParClose, close_message);
                        if closed.result is Err {
                            stop(tokens, closed)
                        } else {
                            good(closed.state, node)
                        }
                    },
                }
            }
        }),
{
    reveal(condition);
}

/// The definition of `if_statement`.
pub proof fn unfold_if_statement(tokens: Seq<SpecToken>, st: SpecParser)
    ensures
        if_statement(tokens, st) == ({
            let word = eat(tokens, st, SpecTokenType::If, "Expected 'if' to starting if statement."@);
            if word.result is Err {
                stop(tokens, word)
            } else {
                let test = condition(
                    tokens,
                    word.state,
                    "Expected open parenthesis to if statement."@,
                    "Expected closing parenthesis to if statement."@,
                );
                if !moved(tokens, st, test) {
                    stop(tokens, test)
                } else {
                    let body = statement(tokens, test.state);
                    if !moved(tokens, st, body) {
                        stop(tokens, body)
                    } else if current(tokens, body.state).kind is Else {
                        let other = statement(tokens, next(tokens, body.state));
                        match other.result {
                            Err(_) => other,
                            Ok(node) => {
                                let named = new_id(other.state);
                                good(
                                    named,
                                    SpecNode::If {
                                        id: named.id,
                                        condition: Box::new(test.result->Ok_0),
                                        body: Box::new(body.result->Ok_0),
                                        else_block: Some(Box::new(node)),
                                    },
                                )
                            },
                        }
                    } else {
                        let named = new_id(body.state);
                        good(
                            named,
                            SpecNode::If {
                                id: named.id,
                                condition: Box::new(test.result->Ok_0),
                                body: Box::new(body.result->Ok_0),
                                else_block: None,
                            },
                        )
                    }
                }
            }
        }),
{
    reveal(if_statement);
    reveal(while_statement);
    reveal(declare_fn);
    reveal(block_rest);
    reveal(code_block);
    reveal(statement);
}

/// The definition of `while_statement`.
pub proof fn unfold_while_statement(tokens: Seq<SpecToken>, st: SpecParser)
    ensures
        while_statement(tokens, st) == ({
            let word = eat(tokens, st, SpecTokenType::While, "Expected 'while' to start of while loop."@);
            if word.result is Err {
                stop(tokens, word)
            } else {
                let test = condition(
                    tokens,
                    word.state,
                    "Expected '(' to condition of while loop."@,
                    "Expected ')' after condition of while loop."@,
                );
                if !moved(tokens, st, test) {
                    stop(tokens, test)
                } else {
                    let body = statement(tokens, test.state);
                    match body.result {
                        Err(_) => body,
                        Ok(node) => {
                            let named = new_id(body.state);
                            good(
                                named,
                                SpecNode::While {
                                    id: named.id,
                                    condition: Box::new(test.result->Ok_0),
                                    body: Box::new(node),
                                },
                            )
                        },
                    }
                }
            }
        }),
{
    reveal(if_statement);
    reveal(while_statement);
    reveal(declare_fn);
    reveal(block_rest);
    reveal(code_block);
    reveal(statement);
}

/// The definition of `parameters_rest`.
pub proof fn unfold_parameters_rest(tokens: Seq<SpecToken>, st: SpecParser, args: Seq<SpecToken>)
    ensures
        parameters_rest(tokens, st, args) == ({
            if current(tokens, st).kind is Comma {
                let name = current(tokens, next(tokens, st));
                let named = eat(
                    tokens,
                    next(tokens, st),
                    any_name(),
                    "Expected a name for function arguments."@,
                );
                if moved(tokens, st, named) {
                    parameters_rest(tokens, named.state, args.push(name))
                } else {
                    stop(tokens, named)
                }
            } else {
                good(st, args)
            }
        }),
{
    reveal(parameters_rest);
}

/// The definition of `parameters`.
pub proof fn unfold_parameters(tokens: Seq<SpecToken>, st: SpecParser)
    ensures
        parameters(tokens, st) == ({
            if current(tokens, st).kind is ParClose {
                good(st, Seq::empty())
            } else {
                let name = current(tokens, st);
                let named = eat(tokens, st, any_name(), "Expected a name for function arguments."@);
                if named.result is Err {
                    stop(tokens, named)
                } else {
                    limited(tokens, parameters_rest(tokens, named.state, seq![name]))
                }
            }
        }),
{
    reveal(parameters);
}

/// The definition of `function_head`.
pub proof fn unfold_function_head(tokens: Seq<SpecToken>, st: SpecParser)
    ensures
        function_head(tokens, st) == ({
            let word = eat(
                tokens,
                st,
                SpecTokenType::FuncDeclare,
                "Expected 'fn' to start a function declaration."@,
            );
            if word.result is Err {
                stop(tokens, word)
            } else {
                let name = current(tokens, word.state);
                let named = eat(
                    tokens,
                    word.state,
                    any_name(),
                    "Expected a name for the function declaration."@,
                );
                if named.result is Err {
                    stop(tokens, named)
                } else {
                    let opened = eat(
                        tokens,
                        named.state,
                        SpecTokenType::ParOpen,
                        "Expected an open parenthesis for the function declaration."@,
                    );
                    if opened.result is Err {
                        stop(tokens, opened)
                    } else {
                        let args = parameters(tokens, opened.state);
                        match args.result {
                            Err(_) => stop(tokens, args),
                            Ok(list) => {
                                let closed = eat(
                                    tokens,
                                    args.state,
                                    SpecTokenType::ParClose,
                                    "Expected closing parenthesis to function declaration."@,
                                );
                                if closed.result is Err {
                                    stop(tokens, closed)
                                } else {
                                    good(closed.state, (name, list))
                                }
                            },
                        }
                    }
                }
            }
        }),
{
    reveal(function_head);
}

/// The definition of `declare_fn`.
pub proof fn unfold_declare_fn(tokens: Seq<SpecToken>, st: SpecParser)
    ensures
        declare_fn(tokens, st) == ({
            let head = function_head(tokens, st);
            if !moved(tokens, st, head) {
                stop(tokens, head)
            } else {
                let body = statement(tokens, head.state);
                match body.result {
                    Err(_) => body,
                    Ok(node) => {
                        let named = new_id(body.state);
                        good(
                            named,
                            SpecNode::DeclareFn {
                                id: named.id,
                                name: head.result->Ok_0.0,
                                args: head.result->Ok_0.1,
                                body: Box::new(node),
                            },
                        )
                    },
                }
            }
        }),
{
    reveal(if_statement);
    reveal(while_statement);
    reveal(declare_fn);
    reveal(block_rest);
    reveal(code_block);
    reveal(statement);
}

/// The definition of `block_rest`.
pub proof fn unfold_block_rest(tokens: Seq<SpecToken>, st: SpecParser, nodes: Seq<SpecNode>)
    ensures
        block_rest(tokens, st, nodes) == ({
            if current(tokens, st).kind is BrackClose {
                good(next(tokens, st), SpecNode::Block(nodes))
            } else {
                let one = statement(tokens, st);
                if moved(tokens, st, one) {
                    block_rest(tokens, one.state, nodes.push(one.result->Ok_0))
                } else {
                    stop(tokens, one)
                }
            }
        }),
{
    reveal(if_statement);
    reveal(while_statement);
    reveal(declare_fn);
    reveal(block_rest);
    reveal(code_block);
    reveal(statement);
}

/// The definition of `code_block`.
pub proof fn unfold_code_block(tokens: Seq<SpecToken>, st: SpecParser)
    ensures
        code_block(tokens, st) == ({
            let opened = eat(tokens, st, SpecTokenType::BrackOpen, "Expected open bracket to code block."@);
            if opened.result is Err {
                stop(tokens, opened)
            } else {
                block_rest(tokens, opened.state, Seq::empty())
            }
        }),
{
    reveal(if_statement);
    reveal(while_statement);
    reveal(declare_fn);
    reveal(block_rest);
    reveal(code_block);
    reveal(statement);
}

/// The definition of `statement`.
pub proof fn unfold_statement(tokens: Seq<SpecToken>, st: SpecParser)
    ensures
        statement(tokens, st) == ({
            match current(tokens, st).kind {
                SpecTokenType::Declare => declare_var(tokens, st),
                SpecTokenType::Name(_) => {
                    if peek(tokens, st) is Some && peek(tokens, st)->Some_0.kind is Assign {
                        assign(tokens, st)
                    } else {
                        expression_statement(tokens, st)
                    }
                },
                SpecTokenType::If => if_statement(tokens, st),
                SpecTokenType::While => while_statement(tokens, st),
                SpecTokenType::For => bad(tokens, st, "For loops are not supported."@),
                SpecTokenType::Print => print(tokens, st),
                SpecTokenType::BrackOpen => code_block(tokens, st),
                SpecTokenType::FuncDeclare => declare_fn(tokens, st),
                SpecTokenType::Return => return_statement(tokens, st),
                _ => expression_statement(tokens, st),
            }
        }),
{
    reveal(if_statement);
    reveal(while_statement);
    reveal(declare_fn);
    reveal(block_rest);
    reveal(code_block);
    reveal(statement);
}

/// The definition of `program_rest`.
pub proof fn unfold_program_rest(tokens: Seq<SpecToken>, st: SpecParser, nodes: Seq<SpecNode>)
    ensures
        program_rest(tokens, st, nodes) == ({
            if current(tokens, st).kind is Eof {
                good(st, nodes)
            } else {
                let one = statement(tokens, st);
                if moved(tokens, st, one) {
                    program_rest(tokens, one.state, nodes.push(one.result->Ok_0))
                } else {
                    stop(tokens, one)
                }
            }
        }),
{
    reveal(program_rest);
}

/// The definition of `parse`.
pub proof fn unfold_parse(tokens: Seq<SpecToken>, st: SpecParser)
    ensures
        parse(tokens, st) == ({
            program_rest(tokens, st, Seq::empty())
        }),
{
    reveal(parse);
}

} // verus!
