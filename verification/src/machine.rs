//! The parts of the evaluator's state: the work at hand, the tasks that wait for
//! its result, and what passes between the evaluator and its host.

use vstd::prelude::*;
use crate::ast::{Node, SpecNode, node_views};
use crate::token::{Token, SpecToken};
use crate::function::{Function, SpecFunction};
use crate::error::{Error, SpecError};
use crate::interpreter::{Object, SpecObject, object_views};

verus! {

/// An operation on two numbers that the host computes.
#[derive(Clone, Copy, PartialEq, Eq, Debug, Structural)]
pub enum Operation {
    Add,
    Subtract,
    Multiply,
    Divide,
    Greater,
    Less,
    GreaterEqual,
    LessEqual,
    Equal,
    NotEqual,
}

/// What the evaluator asks of its host: work on numbers, which the library
/// carries as bit patterns and never computes with, and calls of native
/// functions.
pub enum Request {
    /// The result of an operation on two numbers.
    Arithmetic { operation: Operation, left: u64, right: u64 },
    /// The negation of a number.
    Negate { value: u64 },
    /// A number cut to a count of repetitions.
    Count { value: u64 },
    /// A number written as text.
    Display { value: u64 },
    /// The result of a native function on its arguments.
    Native { name: String, args: Vec<Object> },
}

/// The mathematical value of a [`Request`].
pub enum SpecRequest {
    Arithmetic { operation: Operation, left: u64, right: u64 },
    Negate { value: u64 },
    Count { value: u64 },
    Display { value: u64 },
    Native { name: Seq<char>, args: Seq<SpecObject> },
}

impl View for Request {
    type V = SpecRequest;

    open spec fn view(&self) -> SpecRequest {
        match self {
            Request::Arithmetic { operation, left, right } => SpecRequest::Arithmetic {
                operation: *operation,
                left: *left,
                right: *right,
            },
            Request::Negate { value } => SpecRequest::Negate { value: *value },
            Request::Count { value } => SpecRequest::Count { value: *value },
            Request::Display { value } => SpecRequest::Display { value: *value },
            Request::Native { name, args } => SpecRequest::Native {
                name: name@,
                args: object_views(args@),
            },
        }
    }
}

/// Copies a list of values.
pub fn clone_objects(values: &Vec<Object>) -> (copy: Vec<Object>)
    ensures
        object_views(copy@) == object_views(values@),
{
    let mut copy: Vec<Object> = Vec::new();
    let mut i: usize = 0;
    while i < values.len()
        invariant
            i <= values.len(),
            copy.len() == i,
            forall|j: int| 0 <= j < i ==> copy[j]@ == values[j]@,
        decreases values.len() - i,
    {
        copy.push(values[i].clone());
        i += 1;
    }
    assert(object_views(copy@) =~= object_views(values@));
    copy
}

impl Clone for Request {
    fn clone(&self) -> (copy: Self)
        ensures
            copy@ == self@,
    {
        match self {
            Request::Arithmetic { operation, left, right } => Request::Arithmetic {
                operation: *operation,
                left: *left,
                right: *right,
            },
            Request::Negate { value } => Request::Negate { value: *value },
            Request::Count { value } => Request::Count { value: *value },
            Request::Display { value } => Request::Display { value: *value },
            Request::Native { name, args } => Request::Native {
                name: name.clone(),
                args: clone_objects(args),
            },
        }
    }
}

/// What the host answers.
pub enum Reply {
    /// The value asked for: of an operation, a negation or a native function.
    Value(Object),
    /// The count asked for.
    Count(usize),
    /// The text asked for.
    Text(String),
    /// The native function failed, with this message.
    Failure(String),
}

/// The mathematical value of a [`Reply`].
pub enum SpecReply {
    Value(SpecObject),
    Count(usize),
    Text(Seq<char>),
    Failure(Seq<char>),
}

impl View for Reply {
    type V = SpecReply;

    open spec fn view(&self) -> SpecReply {
        match self {
            Reply::Value(value) => SpecReply::Value(value@),
            Reply::Count(count) => SpecReply::Count(*count),
            Reply::Text(text) => SpecReply::Text(text@),
            Reply::Failure(message) => SpecReply::Failure(message@),
        }
    }
}

/// The view of a result of evaluation.
pub open spec fn result_view(result: Result<Object, Error>) -> Result<SpecObject, SpecError> {
    match result {
        Ok(value) => Ok(value@),
        Err(error) => Err(error@),
    }
}

/// Copies a result of evaluation.
pub fn clone_result(result: &Result<Object, Error>) -> (copy: Result<Object, Error>)
    ensures
        result_view(copy) == result_view(*result),
{
    match result {
        Ok(value) => Ok(value.clone()),
        Err(error) => Err(error.clone()),
    }
}

/// What the host is to do after a step of the evaluator.
pub enum Action {
    /// Nothing: the evaluator can go on.
    Continue,
    /// Answer this request, and hand the answer to the evaluator.
    Request(Request),
    /// Stop: the run has ended with this result.
    Finished(Result<Object, Error>),
}

/// The mathematical value of an [`Action`].
pub enum SpecAction {
    Continue,
    Request(SpecRequest),
    Finished(Result<SpecObject, SpecError>),
}

impl View for Action {
    type V = SpecAction;

    open spec fn view(&self) -> SpecAction {
        match self {
            Action::Continue => SpecAction::Continue,
            Action::Request(request) => SpecAction::Request(request@),
            Action::Finished(result) => SpecAction::Finished(result_view(*result)),
        }
    }
}

/// The work at hand.
pub enum Work {
    /// A node is to be evaluated.
    Evaluate(Node),
    /// A value is to be handed to the task that waits for it.
    Deliver(Object),
    /// A `return` carries its value outward to the call that it leaves.
    Unwind(Object),
    /// An error ends the run, leaving each block and call on its way out.
    Fail(Error),
    /// The host has been asked and has not answered yet.
    Await(Request),
    /// The run has ended.
    Finished(Result<Object, Error>),
}

/// The mathematical value of [`Work`].
pub enum SpecWork {
    Evaluate(SpecNode),
    Deliver(SpecObject),
    Unwind(SpecObject),
    Fail(SpecError),
    Await(SpecRequest),
    Finished(Result<SpecObject, SpecError>),
}

impl View for Work {
    type V = SpecWork;

    open spec fn view(&self) -> SpecWork {
        match self {
            Work::Evaluate(node) => SpecWork::Evaluate(node@),
            Work::Deliver(value) => SpecWork::Deliver(value@),
            Work::Unwind(value) => SpecWork::Unwind(value@),
            Work::Fail(error) => SpecWork::Fail(error@),
            Work::Await(request) => SpecWork::Await(request@),
            Work::Finished(result) => SpecWork::Finished(result_view(*result)),
        }
    }
}

/// A task that waits for the result of the work at hand.
pub enum Task {
    /// The statements of a program; `next` is the first not yet begun.
    Program { statements: Vec<Node>, next: usize },
    /// The statements of a block, which owns the innermost frame.
    Block { statements: Vec<Node>, next: usize },
    /// A unary operator waits for its operand.
    Unary { operator: Token },
    /// A binary operator waits for its left operand.
    BinaryRight { operator: Token, right: Node },
    /// A binary operator has its left operand and waits for its right.
    BinaryApply { operator: Token, left: Object },
    /// `and` or `or` waits for its left operand.
    Logical { operator: Token, right: Node },
    /// A declaration waits for its initializer.
    Declare { name: Token },
    /// An assignment waits for its value.
    Assign { id: usize, name: Token },
    /// An `if` waits for its condition.
    If { body: Node, else_block: Option<Node> },
    /// A `while` waits for its condition.
    WhileCondition { condition: Node, body: Node },
    /// A `while` waits for its body to end.
    WhileBody { condition: Node, body: Node },
    /// A call waits for the value of its callee.
    Callee { args: Vec<Node> },
    /// A call waits for the value of its next argument.
    Arguments { function: Function, args: Vec<Node>, values: Vec<Object> },
    /// A call of a user-defined function waits for the body to end; it owns
    /// the frame of the parameters.
    Call,
    /// A `return` waits for its value.
    Return,
    /// A repetition of a text waits for its count.
    Repeat { text: String },
}

/// The mathematical value of a [`Task`].
pub enum SpecTask {
    Program { statements: Seq<SpecNode>, next: usize },
    Block { statements: Seq<SpecNode>, next: usize },
    Unary { operator: SpecToken },
    BinaryRight { operator: SpecToken, right: SpecNode },
    BinaryApply { operator: SpecToken, left: SpecObject },
    Logical { operator: SpecToken, right: SpecNode },
    Declare { name: SpecToken },
    Assign { id: usize, name: SpecToken },
    If { body: SpecNode, else_block: Option<SpecNode> },
    WhileCondition { condition: SpecNode, body: SpecNode },
    WhileBody { condition: SpecNode, body: SpecNode },
    Callee { args: Seq<SpecNode> },
    Arguments { function: SpecFunction, args: Seq<SpecNode>, values: Seq<SpecObject> },
    Call,
    Return,
    Repeat { text: Seq<char> },
}

impl View for Task {
    type V = SpecTask;

    open spec fn view(&self) -> SpecTask {
        match self {
            Task::Program { statements, next } => SpecTask::Program {
                statements: node_views(statements@),
                next: *next,
            },
            Task::Block { statements, next } => SpecTask::Block {
                statements: node_views(statements@),
                next: *next,
            },
            Task::Unary { operator } => SpecTask::Unary { operator: operator@ },
            Task::BinaryRight { operator, right } => SpecTask::BinaryRight {
                operator: operator@,
                right: right@,
            },
            Task::BinaryApply { operator, left } => SpecTask::BinaryApply {
                operator: operator@,
                left: left@,
            },
            Task::Logical { operator, right } => SpecTask::Logical {
                operator: operator@,
                right: right@,
            },
            Task::Declare { name } => SpecTask::Declare { name: name@ },
            Task::Assign { id, name } => SpecTask::Assign { id: *id, name: name@ },
            Task::If { body, else_block } => SpecTask::If {
                body: body@,
                else_block: match else_block {
                    Some(other) => Some(other@),
                    None => None,
                },
            },
            Task::WhileCondition { condition, body } => SpecTask::WhileCondition {
                condition: condition@,
                body: body@,
            },
            Task::WhileBody { condition, body } => SpecTask::WhileBody {
                condition: condition@,
                body: body@,
            },
            Task::Callee { args } => SpecTask::Callee { args: node_views(args@) },
            Task::Arguments { function, args, values } => SpecTask::Arguments {
                function: function@,
                args: node_views(args@),
                values: object_views(values@),
            },
            Task::Call => SpecTask::Call,
            Task::Return => SpecTask::Return,
            Task::Repeat { text } => SpecTask::Repeat { text: text@ },
        }
    }
}

impl SpecTask {
    /// Whether the task owns a frame: a block its own, a call that of the
    /// parameters.
    pub open spec fn owns_frame(self) -> bool {
        self is Block || self is Call
    }
}

impl Task {
    /// Whether the task owns a frame.
    pub fn owns_frame(&self) -> (owns: bool)
        ensures
            owns == self@.owns_frame(),
    {
        match self {
            Task::Block { .. } => true,
            Task::Call => true,
            _ => false,
        }
    }
}

/// The views of a stack of tasks, the one that waits for the work at hand last.
pub open spec fn task_views(tasks: Seq<Task>) -> Seq<SpecTask> {
    tasks.map_values(|task: Task| task@)
}

} // verus!
