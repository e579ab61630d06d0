//! What evaluation means: the evaluator's state as mathematics, and the step
//! that each kind of work and each waiting task gives rise to.
//!
//! The evaluator never recurses into the tree. It holds the work at hand and a
//! stack of tasks that wait for the result; a step does one piece of work.
//! Work on numbers and calls of native functions are requests to the host, which
//! answers them between steps.

use vstd::prelude::*;
use crate::ast::{SpecNode, SpecLiteral};
use crate::token::{SpecToken, SpecTokenType};
use crate::function::SpecFunction;
use crate::error::SpecError;
use crate::interpreter::SpecObject;
use crate::machine::{Operation, SpecRequest, SpecReply, SpecAction, SpecWork, SpecTask};
use crate::text::{decimal, repeated};

verus! {

/// The evaluator's state: the local frames, innermost last; the resolver's
/// distances by node identifier; the global table; the tasks that wait, the one
/// that waits for the work at hand last; and the work at hand.
pub struct SpecInterpreter {
    pub environments: Seq<Map<Seq<char>, SpecObject>>,
    pub depths: Map<usize, usize>,
    pub globals: Map<Seq<char>, SpecObject>,
    pub tasks: Seq<SpecTask>,
    pub work: SpecWork,
}

// ----------------------------------------------------------------------------
// Messages
// ----------------------------------------------------------------------------
/// A source position as it is written at the end of a message.
pub open spec fn position(line: usize, column: usize) -> Seq<char> {
    " ["@ + decimal(line as nat) + ":"@ + decimal(column as nat) + "]"@
}

/// The message for a global name that is not bound.
pub open spec fn unknown_variable_message(name: SpecToken) -> Seq<char> {
    "Unknown variable '"@ + name.value + "'"@ + position(name.line, name.column)
}

/// The message for a call with the wrong number of arguments.
pub open spec fn arity_message(expected: nat, found: nat) -> Seq<char> {
    "Expected "@ + decimal(expected) + " arguments, found "@ + decimal(found) + "."@
}

/// The message for a call of what is no function; `shown` is the callee's
/// display form.
pub open spec fn not_callable_message(shown: Seq<char>) -> Seq<char> {
    "Can only call functions, not "@ + shown
}

/// The message for operands that an operator does not take: what the
/// operator asks for, the operator as it is written, and its position.
pub open spec fn operands_message(operator: SpecToken) -> Seq<char> {
    let what = match operator.kind {
        SpecTokenType::Plus => "Left and right values must both be numbers or strings for addition"@,
        SpecTokenType::Minus => "Left and right values must both be numbers for subtraction"@,
        SpecTokenType::Multiply => "Left and right values must both be numbers for multiplication"@,
        SpecTokenType::Divide => "Left and right values must both be numbers for division"@,
        _ => "Left and right values must both be numbers for comparison"@,
    };
    what + " ('"@ + operator.value + "')."@ + position(operator.line, operator.column)
}

/// The message for a token that is no binary operator.
pub open spec fn unknown_operator_message(operator: SpecToken) -> Seq<char> {
    "Operator not implemented: '"@ + operator.value + "'"@ + position(
        operator.line,
        operator.column,
    )
}

/// The message for the negation of what is no number.
pub open spec fn negation_message(operator: SpecToken) -> Seq<char> {
    "Value must be number when negating (-)."@ + position(operator.line, operator.column)
}

/// The message for a token that is no unary operator.
pub open spec fn unknown_unary_message(operator: SpecToken) -> Seq<char> {
    "Unrecognized unary operator: '"@ + operator.value + "'"@ + position(
        operator.line,
        operator.column,
    )
}

/// The message for a `return` that leaves no call.
pub open spec fn stray_return_message() -> Seq<char> {
    "Cannot return outside of a function."@
}

/// The message for a reply that does not answer the request.
pub open spec fn stray_reply_message() -> Seq<char> {
    "The host's reply does not answer the request."@
}

// ----------------------------------------------------------------------------
// Values
// ----------------------------------------------------------------------------
/// The value of a literal.
pub open spec fn literal(value: SpecLiteral) -> SpecObject {
    match value {
        SpecLiteral::Number(bits) => SpecObject::Number(bits),
        SpecLiteral::Bool(b) => SpecObject::Bool(b),
        SpecLiteral::String(text) => SpecObject::String(text),
        SpecLiteral::Nothing => SpecObject::Nothing,
    }
}

/// A number's text without a trailing ".0".
pub open spec fn integral(text: Seq<char>) -> Seq<char> {
    if text.len() >= 2 && text[text.len() - 2] == '.' && text[text.len() - 1] == '0' {
        text.subrange(0, text.len() - 2)
    } else {
        text
    }
}

/// The display form of a value; `number` is the host's text for the number
/// when the value is one.
pub open spec fn display(value: SpecObject, number: Seq<char>) -> Seq<char> {
    match value {
        SpecObject::Bool(b) => if b {
            "true"@
        } else {
            "false"@
        },
        SpecObject::Function(SpecFunction::UserDefined { name, .. }) => "<fn '"@ + name.value
            + "' at ["@ + decimal(name.line as nat) + ":"@ + decimal(name.column as nat) + "]>"@,
        SpecObject::Function(SpecFunction::Native { name, .. }) => "<native fn '"@ + name + "'>"@,
        SpecObject::Number(_) => integral(number),
        SpecObject::String(text) => text,
        SpecObject::Nothing => "none"@,
    }
}

/// The operation on two numbers that a binary operator stands for.
pub open spec fn operation(kind: SpecTokenType) -> Option<Operation> {
    match kind {
        SpecTokenType::Plus => Some(Operation::Add),
        SpecTokenType::Minus => Some(Operation::Subtract),
        SpecTokenType::Multiply => Some(Operation::Multiply),
        SpecTokenType::Divide => Some(Operation::Divide),
        SpecTokenType::Greater => Some(Operation::Greater),
        SpecTokenType::Less => Some(Operation::Less),
        SpecTokenType::GreraterEqual => Some(Operation::GreaterEqual),
        SpecTokenType::LessEqual => Some(Operation::LessEqual),
        SpecTokenType::Equal => Some(Operation::Equal),
        SpecTokenType::NotEqual => Some(Operation::NotEqual),
        _ => None,
    }
}

// ----------------------------------------------------------------------------
// The parts of the state
// ----------------------------------------------------------------------------
/// The state with other work at hand.
pub open spec fn with_work(m: SpecInterpreter, work: SpecWork) -> SpecInterpreter {
    SpecInterpreter { work, ..m }
}

/// The state with one more waiting task.
pub open spec fn push_task(m: SpecInterpreter, task: SpecTask) -> SpecInterpreter {
    SpecInterpreter { tasks: m.tasks.push(task), ..m }
}

/// The state without the last waiting task.
pub open spec fn pop_task(m: SpecInterpreter) -> SpecInterpreter {
    if m.tasks.len() > 0 {
        SpecInterpreter { tasks: m.tasks.drop_last(), ..m }
    } else {
        m
    }
}

/// The state with one more frame.
pub open spec fn push_frame(
    m: SpecInterpreter,
    frame: Map<Seq<char>, SpecObject>,
) -> SpecInterpreter {
    SpecInterpreter { environments: m.environments.push(frame), ..m }
}

/// The state without the innermost frame.
pub open spec fn pop_frame(m: SpecInterpreter) -> SpecInterpreter {
    if m.environments.len() > 0 {
        SpecInterpreter { environments: m.environments.drop_last(), ..m }
    } else {
        m
    }
}

/// The state in which the run fails with a runtime error.
pub open spec fn raise(m: SpecInterpreter, message: Seq<char>) -> SpecInterpreter {
    with_work(m, SpecWork::Fail(SpecError::Runtime(message)))
}

/// Binds a name where a declaration binds it: in the innermost frame if there
/// is one, else in the global table.
pub open spec fn bind(m: SpecInterpreter, name: Seq<char>, value: SpecObject) -> SpecInterpreter {
    if m.environments.len() > 0 {
        SpecInterpreter {
            environments: m.environments.update(
                m.environments.len() - 1,
                m.environments.last().insert(name, value),
            ),
            ..m
        }
    } else {
        SpecInterpreter { globals: m.globals.insert(name, value), ..m }
    }
}

/// Writes a name where an assignment writes it: in the frame at the distance
/// recorded for the node, counted from the innermost; in the global table if
/// none is recorded; nowhere if no frame stands at the recorded distance.
pub open spec fn store(
    m: SpecInterpreter,
    id: usize,
    name: Seq<char>,
    value: SpecObject,
) -> SpecInterpreter {
    if m.depths.contains_key(id) {
        let distance = m.depths[id];
        if distance < m.environments.len() {
            let at = m.environments.len() - 1 - distance;
            SpecInterpreter {
                environments: m.environments.update(at, m.environments[at].insert(name, value)),
                ..m
            }
        } else {
            m
        }
    } else {
        SpecInterpreter { globals: m.globals.insert(name, value), ..m }
    }
}

/// Reads a name where a reference reads it: in the frame at the distance
/// recorded for the node, or in the global table if none is recorded. A name
/// that is not bound there is an error; where no frame stands at the recorded
/// distance, the absent value is read.
pub open spec fn lookup(
    m: SpecInterpreter,
    name: SpecToken,
    id: usize,
) -> Result<SpecObject, SpecError> {
    if m.depths.contains_key(id) {
        let distance = m.depths[id];
        if distance < m.environments.len() {
            let frame = m.environments[m.environments.len() - 1 - distance];
            if frame.contains_key(name.value) {
                Ok(frame[name.value])
            } else {
                Err(SpecError::Runtime(unknown_variable_message(name)))
            }
        } else {
            Ok(SpecObject::Nothing)
        }
    } else if m.globals.contains_key(name.value) {
        Ok(m.globals[name.value])
    } else {
        Err(SpecError::Runtime(unknown_variable_message(name)))
    }
}

/// The frame of a call's parameters: the first `count` names, each bound to
/// the value at its position; of two equal names the later is bound.
pub open spec fn bound(params: Seq<SpecToken>, values: Seq<SpecObject>, count: nat) -> Map<
    Seq<char>,
    SpecObject,
>
    decreases count,
{
    if count == 0 {
        Map::empty()
    } else {
        bound(params, values, (count - 1) as nat).insert(
            params[count - 1].value,
            values[count - 1],
        )
    }
}

/// The smaller of two lengths.
pub open spec fn shorter(a: nat, b: nat) -> nat {
    if a <= b {
        a
    } else {
        b
    }
}

// ----------------------------------------------------------------------------
// Each kind of node
// ----------------------------------------------------------------------------
/// A variable reference: its value is delivered, or the run fails.
pub open spec fn variable(m: SpecInterpreter, name: SpecToken, id: usize) -> SpecInterpreter {
    match lookup(m, name, id) {
        Ok(value) => with_work(m, SpecWork::Deliver(value)),
        Err(error) => with_work(m, SpecWork::Fail(error)),
    }
}

/// A declaration whose initializer has the given value.
pub open spec fn declare(
    m: SpecInterpreter,
    name: SpecToken,
    value: SpecObject,
) -> SpecInterpreter {
    with_work(bind(m, name.value, value), SpecWork::Deliver(SpecObject::Nothing))
}

/// An assignment of the given value.
pub open spec fn assign(
    m: SpecInterpreter,
    id: usize,
    name: SpecToken,
    value: SpecObject,
) -> SpecInterpreter {
    with_work(store(m, id, name.value, value), SpecWork::Deliver(SpecObject::Nothing))
}

/// A function declaration: the function is bound under its name.
pub open spec fn declare_fn(
    m: SpecInterpreter,
    name: SpecToken,
    args: Seq<SpecToken>,
    body: SpecNode,
) -> SpecInterpreter {
    let function = SpecObject::Function(SpecFunction::UserDefined { args, body, name });
    with_work(bind(m, name.value, function), SpecWork::Deliver(SpecObject::Nothing))
}

/// A `return` whose value is known: it leaves for the call around it.
pub open spec fn return_statement(m: SpecInterpreter, value: SpecObject) -> SpecInterpreter {
    with_work(m, SpecWork::Unwind(value))
}

/// A unary operator on the value of its operand. `-` asks the host to negate
/// a number and fails on anything else; `!` negates the truth of any value.
pub open spec fn unary(
    m: SpecInterpreter,
    operator: SpecToken,
    child: SpecObject,
) -> SpecInterpreter {
    match operator.kind {
        SpecTokenType::Minus => match child {
            SpecObject::Number(bits) => with_work(
                m,
                SpecWork::Await(SpecRequest::Negate { value: bits }),
            ),
            _ => raise(m, negation_message(operator)),
        },
        SpecTokenType::Not => with_work(m, SpecWork::Deliver(SpecObject::Bool(!child.truthy()))),
        _ => raise(m, unknown_unary_message(operator)),
    }
}

/// `and` or `or` on the value of its left operand: `or` keeps a true left
/// operand, `and` a false one, and the right operand is then never evaluated;
/// otherwise the right operand's value is the result.
pub open spec fn logical(
    m: SpecInterpreter,
    operator: SpecToken,
    left: SpecObject,
    right: SpecNode,
) -> SpecInterpreter {
    if short_circuits(operator, left) {
        with_work(m, SpecWork::Deliver(left))
    } else {
        with_work(m, SpecWork::Evaluate(right))
    }
}

/// Whether the left operand alone decides `and` or `or`.
pub open spec fn short_circuits(operator: SpecToken, left: SpecObject) -> bool {
    if operator.kind is Or {
        left.truthy()
    } else {
        !left.truthy()
    }
}

/// A binary operator on the values of its operands. Two numbers go to the
/// host under any of the ten operators. `+` also joins two texts, and `*` also
/// repeats a text on the left by a number on the right, whose count the host
/// gives. Every other pairing fails.
pub open spec fn binary_operator(
    m: SpecInterpreter,
    operator: SpecToken,
    left: SpecObject,
    right: SpecObject,
) -> SpecInterpreter {
    match operation(operator.kind) {
        None => raise(m, unknown_operator_message(operator)),
        Some(operation) => match (left, right) {
            (SpecObject::Number(l), SpecObject::Number(r)) => with_work(
                m,
                SpecWork::Await(SpecRequest::Arithmetic { operation, left: l, right: r }),
            ),
            (SpecObject::String(l), SpecObject::String(r)) => if operation == Operation::Add {
                with_work(m, SpecWork::Deliver(SpecObject::String(l + r)))
            } else {
                raise(m, operands_message(operator))
            },
            (SpecObject::String(l), SpecObject::Number(r)) => if operation == Operation::Multiply {
                with_work(
                    push_task(m, SpecTask::Repeat { text: l }),
                    SpecWork::Await(SpecRequest::Count { value: r }),
                )
            } else {
                raise(m, operands_message(operator))
            },
            _ => raise(m, operands_message(operator)),
        },
    }
}

/// An `if` whose condition has the given value.
pub open spec fn if_block(
    m: SpecInterpreter,
    condition: SpecObject,
    body: SpecNode,
    else_block: Option<SpecNode>,
) -> SpecInterpreter {
    if condition.truthy() {
        with_work(m, SpecWork::Evaluate(body))
    } else {
        match else_block {
            Some(other) => with_work(m, SpecWork::Evaluate(other)),
            None => with_work(m, SpecWork::Deliver(SpecObject::Nothing)),
        }
    }
}

/// A `while` whose condition has the given value: the body runs and the
/// condition is asked again, or the loop ends with the absent value.
pub open spec fn while_block(
    m: SpecInterpreter,
    held: SpecObject,
    condition: SpecNode,
    body: SpecNode,
) -> SpecInterpreter {
    if held.truthy() {
        with_work(push_task(m, SpecTask::WhileBody { condition, body }), SpecWork::Evaluate(body))
    } else {
        with_work(m, SpecWork::Deliver(SpecObject::Nothing))
    }
}

/// The statements of a block whose frame stands: they run in order, and the
/// frame is left when they end.
pub open spec fn traverse_block(m: SpecInterpreter, statements: Seq<SpecNode>) -> SpecInterpreter {
    with_work(
        push_task(m, SpecTask::Block { statements, next: 0 }),
        SpecWork::Deliver(SpecObject::Nothing),
    )
}

/// A call whose callee has the given value. What is no function cannot be
/// called; the number of arguments must be the function's; then the arguments
/// are evaluated from the left, and the function is invoked.
pub open spec fn call(
    m: SpecInterpreter,
    callee: SpecObject,
    args: Seq<SpecNode>,
) -> SpecInterpreter {
    match callee {
        SpecObject::Function(function) => {
            if args.len() != function.arity() {
                raise(m, arity_message(function.arity(), args.len()))
            } else if args.len() == 0 {
                invoke(m, function, Seq::empty())
            } else {
                with_work(
                    push_task(m, SpecTask::Arguments { function, args, values: Seq::empty() }),
                    SpecWork::Evaluate(args[0]),
                )
            }
        },
        SpecObject::Number(bits) => with_work(
            m,
            SpecWork::Await(SpecRequest::Display { value: bits }),
        ),
        other => raise(m, not_callable_message(display(other, Seq::empty()))),
    }
}

/// A function invoked on its arguments. A native function is a request to the
/// host. A user-defined function gets a frame that binds its parameters by
/// position, and its body runs in it.
pub open spec fn invoke(
    m: SpecInterpreter,
    function: SpecFunction,
    values: Seq<SpecObject>,
) -> SpecInterpreter {
    match function {
        SpecFunction::Native { name, .. } => with_work(
            m,
            SpecWork::Await(SpecRequest::Native { name, args: values }),
        ),
        SpecFunction::UserDefined { args, body, .. } => with_work(
            push_task(
                push_frame(m, bound(args, values, shorter(args.len(), values.len()))),
                SpecTask::Call,
            ),
            SpecWork::Evaluate(body),
        ),
    }
}

/// A node is to be evaluated.
pub open spec fn traverse(m: SpecInterpreter, node: SpecNode) -> SpecInterpreter {
    match node {
        SpecNode::Block(statements) => traverse_block(push_frame(m, Map::empty()), statements),
        SpecNode::BinaryOperator { left, operator, right, .. } => with_work(
            push_task(m, SpecTask::BinaryRight { operator, right: *right }),
            SpecWork::Evaluate(*left),
        ),
        SpecNode::UnaryOperator { operator, child, .. } => with_work(
            push_task(m, SpecTask::Unary { operator }),
            SpecWork::Evaluate(*child),
        ),
        SpecNode::Logical { left, operator, right, .. } => with_work(
            push_task(m, SpecTask::Logical { operator, right: *right }),
            SpecWork::Evaluate(*left),
        ),
        SpecNode::Literal { value, .. } => with_work(m, SpecWork::Deliver(literal(value))),
        SpecNode::Declare { name, value, .. } => with_work(
            push_task(m, SpecTask::Declare { name }),
            SpecWork::Evaluate(*value),
        ),
        SpecNode::Assign { id, name, value } => with_work(
            push_task(m, SpecTask::Assign { id, name }),
            SpecWork::Evaluate(*value),
        ),
        SpecNode::Variable { id, name } => variable(m, name, id),
        SpecNode::If { condition, body, else_block, .. } => with_work(
            push_task(
                m,
                SpecTask::If {
                    body: *body,
                    else_block: match else_block {
                        Some(other) => Some(*other),
                        None => None,
                    },
                },
            ),
            SpecWork::Evaluate(*condition),
        ),
        SpecNode::While { condition, body, .. } => with_work(
            push_task(m, SpecTask::WhileCondition { condition: *condition, body: *body }),
            SpecWork::Evaluate(*condition),
        ),
        SpecNode::DeclareFn { name, args, body, .. } => declare_fn(m, name, args, *body),
        SpecNode::Return { value, .. } => with_work(
            push_task(m, SpecTask::Return),
            SpecWork::Evaluate(*value),
        ),
        SpecNode::FnCall { name, args, .. } => with_work(
            push_task(m, SpecTask::Callee { args }),
            SpecWork::Evaluate(*name),
        ),
    }
}

// ----------------------------------------------------------------------------
// The waiting tasks
// ----------------------------------------------------------------------------
/// A value is handed to the task that waits for it. With no task waiting the
/// run ends with the value.
pub open spec fn deliver(m: SpecInterpreter, value: SpecObject) -> SpecInterpreter {
    if m.tasks.len() == 0 {
        with_work(m, SpecWork::Finished(Ok(value)))
    } else {
        let rest = pop_task(m);
        match m.tasks.last() {
            SpecTask::Program { statements, next } => {
                if next < statements.len() {
                    with_work(
                        push_task(
                            rest,
                            SpecTask::Program { statements, next: (next + 1) as usize },
                        ),
                        SpecWork::Evaluate(statements[next as int]),
                    )
                } else {
                    with_work(rest, SpecWork::Finished(Ok(value)))
                }
            },
            SpecTask::Block { statements, next } => {
                if next < statements.len() {
                    with_work(
                        push_task(rest, SpecTask::Block { statements, next: (next + 1) as usize }),
                        SpecWork::Evaluate(statements[next as int]),
                    )
                } else {
                    with_work(pop_frame(rest), SpecWork::Deliver(SpecObject::Nothing))
                }
            },
            SpecTask::Unary { operator } => unary(rest, operator, value),
            SpecTask::BinaryRight { operator, right } => with_work(
                push_task(rest, SpecTask::BinaryApply { operator, left: value }),
                SpecWork::Evaluate(right),
            ),
            SpecTask::BinaryApply { operator, left } => binary_operator(rest, operator, left, value),
            SpecTask::Logical { operator, right } => logical(rest, operator, value, right),
            SpecTask::Declare { name } => declare(rest, name, value),
            SpecTask::Assign { id, name } => assign(rest, id, name, value),
            SpecTask::If { body, else_block } => if_block(rest, value, body, else_block),
            SpecTask::WhileCondition { condition, body } => while_block(
                rest,
                value,
                condition,
                body,
            ),
            SpecTask::WhileBody { condition, body } => with_work(
                push_task(rest, SpecTask::WhileCondition { condition, body }),
                SpecWork::Evaluate(condition),
            ),
            SpecTask::Callee { args } => call(rest, value, args),
            SpecTask::Arguments { function, args, values } => {
                let got = values.push(value);
                if got.len() < args.len() {
                    with_work(
                        push_task(rest, SpecTask::Arguments { function, args, values: got }),
                        SpecWork::Evaluate(args[got.len() as int]),
                    )
                } else {
                    invoke(rest, function, got)
                }
            },
            SpecTask::Call => with_work(pop_frame(rest), SpecWork::Deliver(SpecObject::Nothing)),
            SpecTask::Return => return_statement(rest, value),
            SpecTask::Repeat { .. } => raise(rest, stray_reply_message()),
        }
    }
}

/// The state without the last waiting task and, where that task owns one,
/// without its frame.
pub open spec fn leave(m: SpecInterpreter) -> SpecInterpreter {
    if m.tasks.len() > 0 && m.tasks.last().owns_frame() {
        pop_frame(pop_task(m))
    } else {
        pop_task(m)
    }
}

/// A `return` travels outward by one task. The call that it leaves ends with
/// its value; every other task is left behind. A `return` that no call
/// catches ends the run with an error.
pub open spec fn unwind(m: SpecInterpreter, value: SpecObject) -> SpecInterpreter {
    if m.tasks.len() == 0 {
        with_work(m, SpecWork::Finished(Err(SpecError::Runtime(stray_return_message()))))
    } else if m.tasks.last() is Call {
        with_work(leave(m), SpecWork::Deliver(value))
    } else {
        with_work(leave(m), SpecWork::Unwind(value))
    }
}

/// An error travels outward by one task, and ends the run when none is left.
pub open spec fn fail(m: SpecInterpreter, error: SpecError) -> SpecInterpreter {
    if m.tasks.len() == 0 {
        with_work(m, SpecWork::Finished(Err(error)))
    } else {
        with_work(leave(m), SpecWork::Fail(error))
    }
}

// ----------------------------------------------------------------------------
// Steps
// ----------------------------------------------------------------------------
/// One step. While the host owes a reply, and when the run has ended, a step
/// changes nothing.
pub open spec fn step(m: SpecInterpreter) -> SpecInterpreter {
    match m.work {
        SpecWork::Evaluate(node) => traverse(m, node),
        SpecWork::Deliver(value) => deliver(m, value),
        SpecWork::Unwind(value) => unwind(m, value),
        SpecWork::Fail(error) => fail(m, error),
        SpecWork::Await(_) => m,
        SpecWork::Finished(_) => m,
    }
}

/// What the host is to do in a state.
pub open spec fn action(m: SpecInterpreter) -> SpecAction {
    match m.work {
        SpecWork::Await(request) => SpecAction::Request(request),
        SpecWork::Finished(result) => SpecAction::Finished(result),
        _ => SpecAction::Continue,
    }
}

/// Steps until the host is needed or the run has ended, `budget` steps at
/// most.
pub open spec fn advance(m: SpecInterpreter, budget: nat) -> SpecInterpreter
    decreases budget,
{
    if budget == 0 || !(action(m) is Continue) {
        m
    } else {
        advance(step(m), (budget - 1) as nat)
    }
}

/// The host's reply arrives. A value answers an operation, a negation or a
/// native call; a count answers a repetition; a text answers the display of a
/// number, which was asked for to say that the number cannot be called. A
/// failure fails the run, and so does a reply of another kind than the request
/// asks for. When nothing was asked, a reply changes nothing.
pub open spec fn resume(m: SpecInterpreter, reply: SpecReply) -> SpecInterpreter {
    match m.work {
        SpecWork::Await(request) => match reply {
            SpecReply::Failure(message) => raise(m, message),
            SpecReply::Value(value) => match request {
                SpecRequest::Arithmetic { .. } => with_work(m, SpecWork::Deliver(value)),
                SpecRequest::Negate { .. } => with_work(m, SpecWork::Deliver(value)),
                SpecRequest::Native { .. } => with_work(m, SpecWork::Deliver(value)),
                _ => raise(m, stray_reply_message()),
            },
            SpecReply::Count(count) => match request {
                SpecRequest::Count { .. } => {
                    if m.tasks.len() > 0 && m.tasks.last() is Repeat {
                        with_work(
                            pop_task(m),
                            SpecWork::Deliver(
                                SpecObject::String(
                                    repeated(m.tasks.last()->Repeat_text, count as nat),
                                ),
                            ),
                        )
                    } else {
                        raise(m, stray_reply_message())
                    }
                },
                _ => raise(m, stray_reply_message()),
            },
            SpecReply::Text(text) => match request {
                SpecRequest::Display { .. } => raise(m, not_callable_message(integral(text))),
                _ => raise(m, stray_reply_message()),
            },
        },
        _ => m,
    }
}

/// The state in which a run of a program begins: no frame, the program as the
/// only task, and nothing delivered to it yet.
pub open spec fn run(m: SpecInterpreter, program: Seq<SpecNode>) -> SpecInterpreter {
    SpecInterpreter {
        environments: Seq::empty(),
        tasks: seq![SpecTask::Program { statements: program, next: 0 }],
        work: SpecWork::Deliver(SpecObject::Nothing),
        ..m
    }
}

/// The global table of a new evaluator: the native functions `print`, of one
/// argument, and `time`, of none.
pub open spec fn builtins() -> Map<Seq<char>, SpecObject> {
    Map::<Seq<char>, SpecObject>::empty().insert(
        "print"@,
        SpecObject::Function(SpecFunction::Native { arg_len: 1, name: "print"@ }),
    ).insert("time"@, SpecObject::Function(SpecFunction::Native { arg_len: 0, name: "time"@ }))
}

/// The state of a new evaluator: it has ended before it began.
pub open spec fn initial() -> SpecInterpreter {
    SpecInterpreter {
        environments: Seq::empty(),
        depths: Map::empty(),
        globals: builtins(),
        tasks: Seq::empty(),
        work: SpecWork::Finished(Ok(SpecObject::Nothing)),
    }
}

} // verus!
