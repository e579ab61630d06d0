//! The parser gives identifiers out in order: in every tree that it makes, the
//! identifiers grow from the nodes below a node to the node, and no two nodes
//! share one, as long as the identifiers have not run out.

use vstd::prelude::*;
use crate::token::{SpecToken, SpecTokenType};
use crate::ast::SpecNode;
use crate::grammar::{
    SpecParser, Parsed, Level, current, next, new_id, eat, left, any_name, assign_message, primary,
    arguments_rest, call_rest, call, unary, operand, binary_rest, binary, get_expression,
    expression_statement, return_statement, print, declare_var, assign, binding, condition,
    if_statement, while_statement, function_head, declare_fn, block_rest, code_block, statement,
    program_rest, parse,
};
use crate::grammar_lemmas::{
    unfold_primary, unfold_arguments_rest, unfold_call_rest, unfold_call, unfold_unary,
    unfold_operand, unfold_binary_rest, unfold_binary, unfold_get_expression,
    unfold_expression_statement, unfold_return_statement, unfold_print, unfold_declare_var,
    unfold_assign, unfold_binding, unfold_condition, unfold_if_statement, unfold_while_statement,
    unfold_declare_fn, unfold_block_rest, unfold_code_block, unfold_statement, unfold_program_rest,
    unfold_parse,
};
use crate::grammar_laws::{
    lemma_primary, lemma_arguments_rest, lemma_call_rest, lemma_operand, lemma_binary_rest,
    lemma_expression, lemma_condition, lemma_statement, lemma_function_head, lemma_block_rest,
    lemma_program_rest_kept,
};
use crate::numbering::{
    numbered, numbered_all, occurrences_all, lemma_numbered_lower, lemma_numbered_push,
    law_numbered_sequences_differ,
};

verus! {

/// Whether the identifiers of a tree are given out in order behind `base` and
/// none is greater than `limit`.
pub open spec fn bounded(node: SpecNode, base: usize, limit: usize) -> bool {
    numbered(node, base) is Some && numbered(node, base)->Some_0 <= limit
}

/// Whether the identifiers of a sequence of trees are given out in order
/// behind `base` and none is greater than `limit`.
pub open spec fn bounded_all(nodes: Seq<SpecNode>, base: usize, limit: usize) -> bool {
    numbered_all(nodes, base) is Some && numbered_all(nodes, base)->Some_0 <= limit
}

/// Whether a parse has come to a tree and has identifiers left.
pub open spec fn fit<T>(parsed: Parsed<T>) -> bool {
    parsed.result is Ok && parsed.state.id < usize::MAX
}

/// Whether the tree of a parse that began at a state is numbered in order
/// behind the state's last identifier, by identifiers that the parse gave out.
pub open spec fn ordered(from: SpecParser, parsed: Parsed<SpecNode>) -> bool {
    fit(parsed) ==> bounded(parsed.result->Ok_0, from.id, parsed.state.id)
}

/// A tree numbered behind a bound is numbered behind a lower bound.
proof fn lemma_lower(node: SpecNode, low: usize, limit: usize, lower: usize)
    requires
        bounded(node, low, limit),
        lower <= low,
    ensures
        bounded(node, lower, limit),
{
    lemma_numbered_lower(node, low, lower);
}

proof fn order_primary(tokens: Seq<SpecToken>, st: SpecParser)
    ensures
        ordered(st, primary(tokens, st)),
    decreases left(tokens, st), 11nat, 0nat,
{
    unfold_primary(tokens, st);
    let r = primary(tokens, st);
    if fit(r) && current(tokens, st).kind is ParOpen {
        let first = new_id(st);
        order_expression(tokens, next(tokens, first));
        lemma_lower(r.result->Ok_0, first.id, r.state.id, st.id);
    }
}

proof fn order_arguments_rest(
    tokens: Seq<SpecToken>,
    st: SpecParser,
    args: Seq<SpecNode>,
    base: usize,
)
    requires
        fit(arguments_rest(tokens, st, args)),
        bounded_all(args, base, st.id),
    ensures
        bounded_all(
            arguments_rest(tokens, st, args).result->Ok_0,
            base,
            arguments_rest(tokens, st, args).state.id,
        ),
    decreases left(tokens, st), 40nat, 0nat,
{
    unfold_arguments_rest(tokens, st, args);
    if current(tokens, st).kind is Comma {
        let one = get_expression(tokens, next(tokens, st));
        let more = args.push(one.result->Ok_0);
        lemma_expression(tokens, next(tokens, st));
        lemma_arguments_rest(tokens, one.state, more);
        order_expression(tokens, next(tokens, st));
        lemma_lower(one.result->Ok_0, st.id, one.state.id, numbered_all(args, base)->Some_0);
        lemma_numbered_push(args, one.result->Ok_0, base);
        order_arguments_rest(tokens, one.state, more, base);
    }
}

proof fn order_call_rest(tokens: Seq<SpecToken>, st: SpecParser, callee: SpecNode, base: usize)
    requires
        fit(call_rest(tokens, st, callee)),
        bounded(callee, base, st.id),
    ensures
        bounded(
            call_rest(tokens, st, callee).result->Ok_0,
            base,
            call_rest(tokens, st, callee).state.id,
        ),
    decreases left(tokens, st), 41nat, 0nat,
{
    unfold_call_rest(tokens, st, callee);
    if current(tokens, st).kind is ParOpen {
        let opened = next(tokens, st);
        let high = numbered(callee, base)->Some_0;
        if current(tokens, opened).kind is ParClose {
            let named = new_id(next(tokens, opened));
            let made = SpecNode::FnCall {
                id: named.id,
                name: Box::new(callee),
                args: Seq::empty(),
            };
            lemma_call_rest(tokens, named, made);
            lemma_numbered_push(Seq::empty(), callee, high);
            assert(bounded(made, base, named.id));
            order_call_rest(tokens, named, made, base);
        } else {
            let first = get_expression(tokens, opened);
            let one = seq![first.result->Ok_0];
            let all = arguments_rest(tokens, first.state, one);
            let closed = eat(
                tokens,
                all.state,
                SpecTokenType::ParClose,
                "Expected closing parenthesis after argument list."@,
            );
            let named = new_id(closed.state);
            let made = SpecNode::FnCall {
                id: named.id,
                name: Box::new(callee),
                args: all.result->Ok_0,
            };
            lemma_expression(tokens, opened);
            lemma_arguments_rest(tokens, first.state, one);
            lemma_call_rest(tokens, named, made);
            order_expression(tokens, opened);
            lemma_lower(first.result->Ok_0, st.id, first.state.id, high);
            lemma_numbered_push(Seq::empty(), first.result->Ok_0, high);
            assert(Seq::<SpecNode>::empty().push(first.result->Ok_0) =~= one);
            order_arguments_rest(tokens, first.state, one, high);
            assert(bounded(made, base, named.id));
            order_call_rest(tokens, named, made, base);
        }
    }
}

proof fn order_call(tokens: Seq<SpecToken>, st: SpecParser)
    ensures
        ordered(st, call(tokens, st)),
    decreases left(tokens, st), 12nat, 0nat,
{
    unfold_call(tokens, st);
    let r = call(tokens, st);
    if fit(r) {
        let callee = primary(tokens, st);
        lemma_primary(tokens, st);
        lemma_call_rest(tokens, callee.state, callee.result->Ok_0);
        order_primary(tokens, st);
        order_call_rest(tokens, callee.state, callee.result->Ok_0, st.id);
    }
}

proof fn order_unary(tokens: Seq<SpecToken>, st: SpecParser)
    ensures
        ordered(st, unary(tokens, st)),
    decreases left(tokens, st), 13nat, 0nat,
{
    unfold_unary(tokens, st);
    let operator = current(tokens, st);
    if operator.kind is Not || operator.kind is Minus {
        order_unary(tokens, next(tokens, st));
    } else {
        order_call(tokens, st);
    }
}

proof fn order_operand(tokens: Seq<SpecToken>, st: SpecParser, level: Level)
    ensures
        ordered(st, operand(tokens, st, level)),
    decreases left(tokens, st), level.rank(), 0nat,
{
    unfold_operand(tokens, st, level);
    match level {
        Level::Or => order_binary(tokens, st, Level::And),
        Level::And => order_binary(tokens, st, Level::Equality),
        Level::Equality => order_binary(tokens, st, Level::Comparison),
        Level::Comparison => order_binary(tokens, st, Level::Term),
        Level::Term => order_binary(tokens, st, Level::Factor),
        Level::Factor => order_unary(tokens, st),
    }
}

proof fn order_binary_rest(
    tokens: Seq<SpecToken>,
    st: SpecParser,
    level: Level,
    node: SpecNode,
    base: usize,
)
    requires
        fit(binary_rest(tokens, st, level, node)),
        bounded(node, base, st.id),
    ensures
        bounded(
            binary_rest(tokens, st, level, node).result->Ok_0,
            base,
            binary_rest(tokens, st, level, node).state.id,
        ),
    decreases left(tokens, st), 42nat, 0nat,
{
    unfold_binary_rest(tokens, st, level, node);
    let operator = current(tokens, st);
    if level.holds(operator.kind) {
        let right = operand(tokens, next(tokens, st), level);
        let named = new_id(right.state);
        let made = level.node(named.id, node, operator, right.result->Ok_0);
        lemma_operand(tokens, next(tokens, st), level);
        lemma_binary_rest(tokens, named, level, made);
        order_operand(tokens, next(tokens, st), level);
        lemma_lower(right.result->Ok_0, st.id, right.state.id, numbered(node, base)->Some_0);
        order_binary_rest(tokens, named, level, made, base);
    }
}

proof fn order_binary(tokens: Seq<SpecToken>, st: SpecParser, level: Level)
    ensures
        ordered(st, binary(tokens, st, level)),
    decreases left(tokens, st), level.rank(), 1nat,
{
    unfold_binary(tokens, st, level);
    let r = binary(tokens, st, level);
    if fit(r) {
        let first = operand(tokens, st, level);
        lemma_operand(tokens, st, level);
        lemma_binary_rest(tokens, first.state, level, first.result->Ok_0);
        order_operand(tokens, st, level);
        order_binary_rest(tokens, first.state, level, first.result->Ok_0, st.id);
    }
}

proof fn order_expression(tokens: Seq<SpecToken>, st: SpecParser)
    ensures
        ordered(st, get_expression(tokens, st)),
    decreases left(tokens, st), 20nat, 0nat,
{
    unfold_get_expression(tokens, st);
    order_binary(tokens, st, Level::Or);
}

proof fn order_expression_statement(tokens: Seq<SpecToken>, st: SpecParser)
    ensures
        ordered(st, expression_statement(tokens, st)),
{
    unfold_expression_statement(tokens, st);
    order_expression(tokens, st);
}

proof fn order_return_statement(tokens: Seq<SpecToken>, st: SpecParser)
    ensures
        ordered(st, return_statement(tokens, st)),
{
    unfold_return_statement(tokens, st);
    let word = eat(tokens, st, SpecTokenType::Return, "Expected 'return'."@);
    order_expression(tokens, word.state);
}

proof fn order_print(tokens: Seq<SpecToken>, st: SpecParser)
    ensures
        ordered(st, print(tokens, st)),
{
    unfold_print(tokens, st);
    let r = print(tokens, st);
    if fit(r) {
        let word = eat(tokens, st, SpecTokenType::Print, "Expected 'print'."@);
        let callee = new_id(word.state);
        let value = get_expression(tokens, callee);
        let function = SpecNode::Variable { id: callee.id, name: current(tokens, st) };
        lemma_expression(tokens, callee);
        order_expression(tokens, callee);
        lemma_numbered_push(Seq::empty(), value.result->Ok_0, callee.id);
        assert(Seq::<SpecNode>::empty().push(value.result->Ok_0) =~= seq![value.result->Ok_0]);
        assert(numbered(function, st.id) == Some(callee.id));
        assert(numbered_all(seq![value.result->Ok_0], callee.id) == numbered(
            value.result->Ok_0,
            callee.id,
        ));
    }
}

proof fn order_binding(tokens: Seq<SpecToken>, st: SpecParser, name: SpecToken, declares: bool)
    ensures
        ordered(st, binding(tokens, st, name, declares)),
{
    unfold_binding(tokens, st, name, declares);
    let sign = eat(tokens, st, SpecTokenType::Assign, assign_message(name));
    order_expression(tokens, sign.state);
}

proof fn order_declare_var(tokens: Seq<SpecToken>, st: SpecParser)
    ensures
        ordered(st, declare_var(tokens, st)),
{
    unfold_declare_var(tokens, st);
    let word = eat(
        tokens,
        st,
        SpecTokenType::Declare,
        "Expected 'let' in front of variable declaration."@,
    );
    let name = current(tokens, word.state);
    let named = eat(tokens, word.state, any_name(), "Expected a name after 'let' keyword."@);
    order_binding(tokens, named.state, name, true);
}

proof fn order_assign(tokens: Seq<SpecToken>, st: SpecParser)
    ensures
        ordered(st, assign(tokens, st)),
{
    unfold_assign(tokens, st);
    let name = current(tokens, st);
    let named = eat(tokens, st, any_name(), "Expected a name when assigning a value."@);
    order_binding(tokens, named.state, name, false);
}

proof fn order_condition(
    tokens: Seq<SpecToken>,
    st: SpecParser,
    open_message: Seq<char>,
    close_message: Seq<char>,
)
    ensures
        ordered(st, condition(tokens, st, open_message, close_message)),
{
    unfold_condition(tokens, st, open_message, close_message);
    let opened = eat(tokens, st, SpecTokenType::ParOpen, open_message);
    order_expression(tokens, opened.state);
}

proof fn order_if_statement(tokens: Seq<SpecToken>, st: SpecParser)
    ensures
        ordered(st, if_statement(tokens, st)),
    decreases left(tokens, st), 29nat, 0nat,
{
    unfold_if_statement(tokens, st);
    let r = if_statement(tokens, st);
    if fit(r) {
        let word = eat(tokens, st, SpecTokenType::If, "Expected 'if' to starting if statement."@);
        let open_message = "Expected open parenthesis to if statement."@;
        let close_message = "Expected closing parenthesis to if statement."@;
        let test = condition(tokens, word.state, open_message, close_message);
        let body = statement(tokens, test.state);
        lemma_condition(tokens, word.state, open_message, close_message);
        lemma_statement(tokens, test.state);
        if current(tokens, body.state).kind is Else {
            let other = statement(tokens, next(tokens, body.state));
            lemma_statement(tokens, next(tokens, body.state));
            order_statement(tokens, next(tokens, body.state));
            order_condition(tokens, word.state, open_message, close_message);
            order_statement(tokens, test.state);
            let first = numbered(test.result->Ok_0, st.id)->Some_0;
            lemma_lower(body.result->Ok_0, test.state.id, body.state.id, first);
            let second = numbered(body.result->Ok_0, first)->Some_0;
            lemma_lower(other.result->Ok_0, body.state.id, other.state.id, second);
        } else {
            order_condition(tokens, word.state, open_message, close_message);
            order_statement(tokens, test.state);
            let first = numbered(test.result->Ok_0, st.id)->Some_0;
            lemma_lower(body.result->Ok_0, test.state.id, body.state.id, first);
        }
    }
}

proof fn order_while_statement(tokens: Seq<SpecToken>, st: SpecParser)
    ensures
        ordered(st, while_statement(tokens, st)),
    decreases left(tokens, st), 29nat, 0nat,
{
    unfold_while_statement(tokens, st);
    let r = while_statement(tokens, st);
    if fit(r) {
        let word = eat(tokens, st, SpecTokenType::While, "Expected 'while' to start of while loop."@);
        let open_message = "Expected '(' to condition of while loop."@;
        let close_message = "Expected ')' after condition of while loop."@;
        let test = condition(tokens, word.state, open_message, close_message);
        let body = statement(tokens, test.state);
        lemma_condition(tokens, word.state, open_message, close_message);
        lemma_statement(tokens, test.state);
        order_condition(tokens, word.state, open_message, close_message);
        order_statement(tokens, test.state);
        let first = numbered(test.result->Ok_0, st.id)->Some_0;
        lemma_lower(body.result->Ok_0, test.state.id, body.state.id, first);
    }
}

proof fn order_declare_fn(tokens: Seq<SpecToken>, st: SpecParser)
    ensures
        ordered(st, declare_fn(tokens, st)),
    decreases left(tokens, st), 29nat, 0nat,
{
    unfold_declare_fn(tokens, st);
    let r = declare_fn(tokens, st);
    if fit(r) {
        let head = function_head(tokens, st);
        let body = statement(tokens, head.state);
        lemma_function_head(tokens, st);
        lemma_statement(tokens, head.state);
        order_statement(tokens, head.state);
        lemma_lower(body.result->Ok_0, head.state.id, body.state.id, st.id);
    }
}

proof fn order_block_rest(tokens: Seq<SpecToken>, st: SpecParser, nodes: Seq<SpecNode>, base: usize)
    requires
        fit(block_rest(tokens, st, nodes)),
        bounded_all(nodes, base, st.id),
    ensures
        bounded(
            block_rest(tokens, st, nodes).result->Ok_0,
            base,
            block_rest(tokens, st, nodes).state.id,
        ),
    decreases left(tokens, st), 44nat, 0nat,
{
    unfold_block_rest(tokens, st, nodes);
    if !(current(tokens, st).kind is BrackClose) {
        let one = statement(tokens, st);
        let more = nodes.push(one.result->Ok_0);
        lemma_statement(tokens, st);
        lemma_block_rest(tokens, one.state, more);
        order_statement(tokens, st);
        lemma_lower(one.result->Ok_0, st.id, one.state.id, numbered_all(nodes, base)->Some_0);
        lemma_numbered_push(nodes, one.result->Ok_0, base);
        order_block_rest(tokens, one.state, more, base);
    }
}

proof fn order_code_block(tokens: Seq<SpecToken>, st: SpecParser)
    ensures
        ordered(st, code_block(tokens, st)),
    decreases left(tokens, st), 29nat, 0nat,
{
    unfold_code_block(tokens, st);
    let r = code_block(tokens, st);
    if fit(r) {
        let opened = eat(tokens, st, SpecTokenType::BrackOpen, "Expected open bracket to code block."@);
        lemma_block_rest(tokens, opened.state, Seq::empty());
        order_block_rest(tokens, opened.state, Seq::empty(), st.id);
    }
}

proof fn order_statement(tokens: Seq<SpecToken>, st: SpecParser)
    ensures
        ordered(st, statement(tokens, st)),
    decreases left(tokens, st), 30nat, 0nat,
{
    unfold_statement(tokens, st);
    match current(tokens, st).kind {
        SpecTokenType::Declare => order_declare_var(tokens, st),
        SpecTokenType::Name(_) => {
            order_assign(tokens, st);
            order_expression_statement(tokens, st);
        },
        SpecTokenType::If => order_if_statement(tokens, st),
        SpecTokenType::While => order_while_statement(tokens, st),
        SpecTokenType::For => {},
        SpecTokenType::Print => order_print(tokens, st),
        SpecTokenType::BrackOpen => order_code_block(tokens, st),
        SpecTokenType::FuncDeclare => order_declare_fn(tokens, st),
        SpecTokenType::Return => order_return_statement(tokens, st),
        _ => order_expression_statement(tokens, st),
    }
}

proof fn order_program_rest(
    tokens: Seq<SpecToken>,
    st: SpecParser,
    nodes: Seq<SpecNode>,
    base: usize,
)
    requires
        fit(program_rest(tokens, st, nodes)),
        bounded_all(nodes, base, st.id),
    ensures
        bounded_all(
            program_rest(tokens, st, nodes).result->Ok_0,
            base,
            program_rest(tokens, st, nodes).state.id,
        ),
    decreases left(tokens, st), 45nat, 0nat,
{
    unfold_program_rest(tokens, st, nodes);
    if !(current(tokens, st).kind is Eof) {
        let one = statement(tokens, st);
        let more = nodes.push(one.result->Ok_0);
        lemma_statement(tokens, st);
        lemma_program_rest_kept(tokens, one.state, more);
        order_statement(tokens, st);
        lemma_lower(one.result->Ok_0, st.id, one.state.id, numbered_all(nodes, base)->Some_0);
        lemma_numbered_push(nodes, one.result->Ok_0, base);
        order_program_rest(tokens, one.state, more, base);
    }
}

/// The identifiers of a program that parses are given out in order behind the
/// parser's last identifier, and so no two of its nodes share an identifier, as
/// long as the identifiers have not run out.
pub proof fn law_parsed_identifiers_differ(tokens: Seq<SpecToken>, st: SpecParser, id: usize)
    requires
        parse(tokens, st).result is Ok,
        parse(tokens, st).state.id < usize::MAX,
    ensures
        numbered_all(parse(tokens, st).result->Ok_0, st.id) is Some,
        occurrences_all(parse(tokens, st).result->Ok_0, id) <= 1,
        occurrences_all(parse(tokens, st).result->Ok_0, id) == 1 ==> st.id < id <= parse(
            tokens,
            st,
        ).state.id,
{
    unfold_parse(tokens, st);
    order_program_rest(tokens, st, Seq::empty(), st.id);
    law_numbered_sequences_differ(parse(tokens, st).result->Ok_0, st.id, id);
}

} // verus!
