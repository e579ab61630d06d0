//! Runtime values and the evaluator.

use vstd::prelude::*;
use vstd::string::StringExecFns;
use std::collections::HashMap;
use crate::ast::{Node, Literal, clone_node};
use crate::token::{Token, TokenType};
use crate::function::{Function, SpecFunction};
use crate::error::Error;
use crate::environment::{Environment, frame_views};
use crate::machine::{
    Operation, Request, Reply, Action, Work, Task, task_views, clone_result, result_view,
};
use crate::messages::{
    unknown_variable_text, arity_text, not_callable_text, operands_text, unknown_operator_text,
    negation_text, unknown_unary_text, integral_text, stray_return_text, stray_reply_text,
};
use crate::semantics;
use crate::semantics::SpecInterpreter;
use crate::text::repeat;

verus! {

broadcast use vstd::std_specs::hash::group_hash_axioms;

/// A runtime value.
///
/// A number is carried as the bit pattern of an IEEE 754 double; the library
/// never looks inside it.
pub enum Object {
    Number(u64),
    Bool(bool),
    String(String),
    Nothing,
    Function(Function),
}

/// The mathematical value of an [`Object`].
pub enum SpecObject {
    Number(u64),
    Bool(bool),
    String(Seq<char>),
    Nothing,
    Function(SpecFunction),
}

impl View for Object {
    type V = SpecObject;

    open spec fn view(&self) -> SpecObject {
        match self {
            Object::Number(bits) => SpecObject::Number(*bits),
            Object::Bool(b) => SpecObject::Bool(*b),
            Object::String(text) => SpecObject::String(text@),
            Object::Nothing => SpecObject::Nothing,
            Object::Function(function) => SpecObject::Function(function@),
        }
    }
}

impl Clone for Object {
    fn clone(&self) -> (copy: Self)
        ensures
            copy@ == self@,
    {
        match self {
            Object::Number(bits) => Object::Number(*bits),
            Object::Bool(b) => Object::Bool(*b),
            Object::String(text) => Object::String(text.clone()),
            Object::Nothing => Object::Nothing,
            Object::Function(function) => Object::Function(function.clone()),
        }
    }
}

impl SpecObject {
    /// Whether a value counts as true in a condition: a boolean is itself,
    /// the absent value is false, every other value is true.
    pub open spec fn truthy(self) -> bool {
        match self {
            SpecObject::Bool(b) => b,
            SpecObject::Nothing => false,
            _ => true,
        }
    }
}

/// The views of a sequence of values, in order.
pub open spec fn object_views(values: Seq<Object>) -> Seq<SpecObject> {
    values.map_values(|value: Object| value@)
}

/// The evaluator: local frames, the resolver's distances, the global table,
/// the tasks that wait, and the work at hand.
///
/// The evaluator does one step at a time and never calls out. Its host runs
/// it: it lets the evaluator advance, answers the request that stops it, hands
/// the reply back, and goes on until the run has ended.
pub struct Interpreter {
    pub environments: Vec<Environment>,
    pub depths: HashMap<usize, usize>,
    pub globals: Environment,
    pub tasks: Vec<Task>,
    pub work: Work,
}

impl View for Interpreter {
    type V = SpecInterpreter;

    open spec fn view(&self) -> SpecInterpreter {
        SpecInterpreter {
            environments: frame_views(self.environments@),
            depths: self.depths@,
            globals: self.globals@,
            tasks: task_views(self.tasks@),
            work: self.work@,
        }
    }
}

/// The operation on two numbers that a binary operator stands for.
pub fn operation_of(kind: &TokenType) -> (found: Option<Operation>)
    ensures
        found == semantics::operation(kind@),
{
    match kind {
        TokenType::Plus => Some(Operation::Add),
        TokenType::Minus => Some(Operation::Subtract),
        TokenType::Multiply => Some(Operation::Multiply),
        TokenType::Divide => Some(Operation::Divide),
        TokenType::Greater => Some(Operation::Greater),
        TokenType::Less => Some(Operation::Less),
        TokenType::GreraterEqual => Some(Operation::GreaterEqual),
        TokenType::LessEqual => Some(Operation::LessEqual),
        TokenType::Equal => Some(Operation::Equal),
        TokenType::NotEqual => Some(Operation::NotEqual),
        _ => None,
    }
}

impl Interpreter {
    /// A new evaluator: no frames, no distances, the native functions `print`
    /// and `time` in the global table, and no run begun.
    pub fn new() -> (interpreter: Self)
        ensures
            interpreter@ == semantics::initial(),
    {
        let mut globals = Environment::new();
        globals.assign(
            String::from_str("print"),
            Object::Function(Function::Native { arg_len: 1, name: String::from_str("print") }),
        );
        globals.assign(
            String::from_str("time"),
            Object::Function(Function::Native { arg_len: 0, name: String::from_str("time") }),
        );
        let interpreter = Interpreter {
            environments: Vec::new(),
            depths: HashMap::new(),
            globals,
            tasks: Vec::new(),
            work: Work::Finished(Ok(Object::Nothing)),
        };
        assert(interpreter@.environments =~= semantics::initial().environments);
        assert(interpreter@.tasks =~= semantics::initial().tasks);
        assert(interpreter@.depths =~= semantics::initial().depths);
        interpreter
    }

    /// Whether a value counts as true in a condition.
    pub fn is_truthy(&self, obj: &Object) -> (truthy: bool)
        ensures
            truthy == obj@.truthy(),
    {
        match obj {
            Object::Bool(v) => *v,
            Object::Nothing => false,
            _ => true,
        }
    }

    pub(crate) fn push_task(&mut self, task: Task)
        ensures
            final(self)@ == semantics::push_task(old(self)@, task@),
    {
        self.tasks.push(task);
        assert(self@.tasks =~= old(self)@.tasks.push(task@));
    }

    pub(crate) fn push_frame(&mut self, frame: Environment)
        ensures
            final(self)@ == semantics::push_frame(old(self)@, frame@),
    {
        self.environments.push(frame);
        assert(self@.environments =~= old(self)@.environments.push(frame@));
    }

    fn pop_frame(&mut self)
        ensures
            final(self)@ == semantics::pop_frame(old(self)@),
    {
        self.environments.pop();
        proof {
            if old(self).environments@.len() > 0 {
                assert(self@.environments =~= old(self)@.environments.drop_last());
            }
        }
    }

    fn raise(&mut self, message: String)
        ensures
            final(self)@ == semantics::raise(old(self)@, message@),
    {
        self.work = Work::Fail(Error::Runtime(message));
    }

    fn bind(&mut self, name: String, value: Object)
        ensures
            final(self)@ == semantics::bind(old(self)@, name@, value@),
    {
        let count = self.environments.len();
        if count > 0 {
            self.environments[count - 1].assign(name, value);
            assert(self@.environments =~= semantics::bind(old(self)@, name@, value@).environments);
        } else {
            self.globals.assign(name, value);
        }
    }

    fn store(&mut self, id: usize, name: String, value: Object)
        ensures
            final(self)@ == semantics::store(old(self)@, id, name@, value@),
    {
        let recorded = match self.depths.get(&id) {
            Some(distance) => Some(*distance),
            None => None,
        };
        match recorded {
            Some(distance) => {
                let count = self.environments.len();
                if distance < count {
                    self.environments[count - 1 - distance].assign(name, value);
                    assert(self@.environments =~= semantics::store(
                        old(self)@,
                        id,
                        name@,
                        value@,
                    ).environments);
                }
            },
            None => {
                self.globals.assign(name, value);
            },
        }
    }

    fn lookup(&self, name: &Token, id: usize) -> (found: Result<Object, Error>)
        ensures
            result_view(found) == semantics::lookup(self@, name@, id),
    {
        match self.depths.get(&id) {
            Some(distance) => {
                let count = self.environments.len();
                if *distance < count {
                    assert(self@.environments[count - 1 - *distance] == self.environments@[count - 1
                        - *distance]@);
                    match self.environments[count - 1 - *distance].find(&name.value) {
                        Some(value) => Ok(value.clone()),
                        None => Err(Error::Runtime(unknown_variable_text(name))),
                    }
                } else {
                    Ok(Object::Nothing)
                }
            },
            None => match self.globals.find(&name.value) {
                Some(value) => Ok(value.clone()),
                None => Err(Error::Runtime(unknown_variable_text(name))),
            },
        }
    }

    /// The value of a variable reference, read where the resolver's distance
    /// for the node says.
    pub fn variable(&self, name: &Token, id: usize) -> (found: Result<Object, Error>)
        ensures
            result_view(found) == semantics::lookup(self@, name@, id),
    {
        self.lookup(name, id)
    }

    /// Ends a declaration whose initializer has the given value: the name is
    /// bound in the innermost frame, or in the global table if there is none.
    pub fn declare(&mut self, name: &Token, value: Object)
        ensures
            final(self)@ == semantics::declare(old(self)@, name@, value@),
    {
        self.bind(name.value.clone(), value);
        self.work = Work::Deliver(Object::Nothing);
    }

    fn assign(&mut self, id: usize, name: &Token, value: Object)
        ensures
            final(self)@ == semantics::assign(old(self)@, id, name@, value@),
    {
        self.store(id, name.value.clone(), value);
        self.work = Work::Deliver(Object::Nothing);
    }

    fn declare_fn(&mut self, name: Token, args: Vec<Token>, body: Node)
        ensures
            final(self)@ == semantics::declare_fn(
                old(self)@,
                name@,
                crate::token::token_views(args@),
                body@,
            ),
    {
        let bound_as = name.value.clone();
        let function = Function::UserDefined { args, body, name };
        self.bind(bound_as, Object::Function(function));
        self.work = Work::Deliver(Object::Nothing);
    }

    fn return_statement(&mut self, value: Object)
        ensures
            final(self)@ == semantics::return_statement(old(self)@, value@),
    {
        self.work = Work::Unwind(value);
    }

    fn literal(&self, node: &Literal) -> (value: Object)
        ensures
            value@ == semantics::literal(node@),
    {
        match node {
            Literal::Number(v) => Object::Number(*v),
            Literal::Bool(v) => Object::Bool(*v),
            Literal::String(v) => Object::String(v.clone()),
            Literal::Nothing => Object::Nothing,
        }
    }

    fn unary(&mut self, operator: &Token, child: Object)
        ensures
            final(self)@ == semantics::unary(old(self)@, operator@, child@),
    {
        match operator._type {
            TokenType::Minus => match child {
                Object::Number(v) => {
                    self.work = Work::Await(Request::Negate { value: v });
                },
                _ => {
                    self.raise(negation_text(operator));
                },
            },
            TokenType::Not => {
                let truthy = self.is_truthy(&child);
                self.work = Work::Deliver(Object::Bool(!truthy));
            },
            _ => {
                self.raise(unknown_unary_text(operator));
            },
        }
    }

    fn logical(&mut self, operator: &Token, left: Object, right: Node)
        ensures
            final(self)@ == semantics::logical(old(self)@, operator@, left@, right@),
    {
        let truthy = self.is_truthy(&left);
        let decided = match operator._type {
            TokenType::Or => truthy,
            _ => !truthy,
        };
        if decided {
            self.work = Work::Deliver(left);
        } else {
            self.work = Work::Evaluate(right);
        }
    }

    fn binary_operator(&mut self, operator: &Token, left: Object, right: Object)
        ensures
            final(self)@ == semantics::binary_operator(old(self)@, operator@, left@, right@),
    {
        match operation_of(&operator._type) {
            None => {
                self.raise(unknown_operator_text(operator));
            },
            Some(operation) => match (left, right) {
                (Object::Number(l), Object::Number(r)) => {
                    self.work = Work::Await(Request::Arithmetic { operation, left: l, right: r });
                },
                (Object::String(l), Object::String(r)) => {
                    if operation == Operation::Add {
                        self.work = Work::Deliver(Object::String(l.concat(r.as_str())));
                    } else {
                        self.raise(operands_text(operator));
                    }
                },
                (Object::String(l), Object::Number(r)) => {
                    if operation == Operation::Multiply {
                        self.push_task(Task::Repeat { text: l });
                        self.work = Work::Await(Request::Count { value: r });
                    } else {
                        self.raise(operands_text(operator));
                    }
                },
                _ => {
                    self.raise(operands_text(operator));
                },
            },
        }
    }

    fn if_block(&mut self, condition: Object, body: Node, else_block: Option<Node>)
        ensures
            final(self)@ == semantics::if_block(
                old(self)@,
                condition@,
                body@,
                match else_block {
                    Some(other) => Some(other@),
                    None => None,
                },
            ),
    {
        if self.is_truthy(&condition) {
            self.work = Work::Evaluate(body);
        } else {
            match else_block {
                Some(other) => {
                    self.work = Work::Evaluate(other);
                },
                None => {
                    self.work = Work::Deliver(Object::Nothing);
                },
            }
        }
    }

    fn while_block(&mut self, held: Object, condition: Node, body: Node)
        ensures
            final(self)@ == semantics::while_block(old(self)@, held@, condition@, body@),
    {
        if self.is_truthy(&held) {
            let again = clone_node(&body);
            self.push_task(Task::WhileBody { condition, body });
            self.work = Work::Evaluate(again);
        } else {
            self.work = Work::Deliver(Object::Nothing);
        }
    }

    /// Begins the statements of a block whose frame stands.
    pub fn traverse_block(&mut self, stmts: Vec<Node>)
        ensures
            final(self)@ == semantics::traverse_block(old(self)@, crate::ast::node_views(stmts@)),
    {
        self.push_task(Task::Block { statements: stmts, next: 0 });
        self.work = Work::Deliver(Object::Nothing);
    }

    fn call(&mut self, callee: Object, given_args: Vec<Node>)
        ensures
            final(self)@ == semantics::call(
                old(self)@,
                callee@,
                crate::ast::node_views(given_args@),
            ),
    {
        match callee {
            Object::Function(function) => {
                let expected = function.arity();
                if given_args.len() != expected {
                    self.raise(arity_text(expected, given_args.len()));
                } else if given_args.len() == 0 {
                    let none: Vec<Object> = Vec::new();
                    assert(object_views(none@) =~= Seq::<SpecObject>::empty());
                    function.call(self, none);
                } else {
                    let first = clone_node(&given_args[0]);
                    let values: Vec<Object> = Vec::new();
                    assert(object_views(values@) =~= Seq::<SpecObject>::empty());
                    self.push_task(Task::Arguments { function, args: given_args, values });
                    self.work = Work::Evaluate(first);
                }
            },
            Object::Number(bits) => {
                self.work = Work::Await(Request::Display { value: bits });
            },
            other => {
                let shown = other.display(&String::new());
                self.raise(not_callable_text(&shown));
            },
        }
    }

    /// Begins the evaluation of a node: what its kind asks for first.
    pub fn traverse(&mut self, node: Node)
        ensures
            final(self)@ == semantics::traverse(old(self)@, node@),
    {
        match node {
            Node::Block(nodes) => {
                self.push_frame(Environment::new());
                self.traverse_block(nodes);
            },
            Node::BinaryOperator { left, operator, right, .. } => {
                self.push_task(Task::BinaryRight { operator, right: *right });
                self.work = Work::Evaluate(*left);
            },
            Node::UnaryOperator { operator, child, .. } => {
                self.push_task(Task::Unary { operator });
                self.work = Work::Evaluate(*child);
            },
            Node::Logical { left, operator, right, .. } => {
                self.push_task(Task::Logical { operator, right: *right });
                self.work = Work::Evaluate(*left);
            },
            Node::Literal { value, .. } => {
                let value = self.literal(&value);
                self.work = Work::Deliver(value);
            },
            Node::Declare { name, value, .. } => {
                self.push_task(Task::Declare { name });
                self.work = Work::Evaluate(*value);
            },
            Node::Assign { id, name, value } => {
                self.push_task(Task::Assign { id, name });
                self.work = Work::Evaluate(*value);
            },
            Node::Variable { id, name } => {
                match self.variable(&name, id) {
                    Ok(value) => {
                        self.work = Work::Deliver(value);
                    },
                    Err(error) => {
                        self.work = Work::Fail(error);
                    },
                }
            },
            Node::If { condition, body, else_block, .. } => {
                let other = match else_block {
                    Some(block) => Some(*block),
                    None => None,
                };
                self.push_task(Task::If { body: *body, else_block: other });
                self.work = Work::Evaluate(*condition);
            },
            Node::While { condition, body, .. } => {
                let first = clone_node(&condition);
                self.push_task(Task::WhileCondition { condition: *condition, body: *body });
                self.work = Work::Evaluate(first);
            },
            Node::DeclareFn { name, args, body, .. } => {
                self.declare_fn(name, args, *body);
            },
            Node::Return { value, .. } => {
                self.push_task(Task::Return);
                self.work = Work::Evaluate(*value);
            },
            Node::FnCall { name, args, .. } => {
                self.push_task(Task::Callee { args });
                self.work = Work::Evaluate(*name);
            },
        }
    }

    fn deliver(&mut self, value: Object)
        ensures
            final(self)@ == semantics::deliver(old(self)@, value@),
    {
        match self.tasks.pop() {
            None => {
                self.work = Work::Finished(Ok(value));
            },
            Some(task) => {
                assert(task@ == old(self)@.tasks.last());
                assert(self@.tasks =~= old(self)@.tasks.drop_last());
                match task {
                    Task::Program { statements, next } => {
                        if next < statements.len() {
                            let node = clone_node(&statements[next]);
                            self.push_task(Task::Program { statements, next: next + 1 });
                            self.work = Work::Evaluate(node);
                        } else {
                            self.work = Work::Finished(Ok(value));
                        }
                    },
                    Task::Block { statements, next } => {
                        if next < statements.len() {
                            let node = clone_node(&statements[next]);
                            self.push_task(Task::Block { statements, next: next + 1 });
                            self.work = Work::Evaluate(node);
                        } else {
                            self.pop_frame();
                            self.work = Work::Deliver(Object::Nothing);
                        }
                    },
                    Task::Unary { operator } => {
                        self.unary(&operator, value);
                    },
                    Task::BinaryRight { operator, right } => {
                        self.push_task(Task::BinaryApply { operator, left: value });
                        self.work = Work::Evaluate(right);
                    },
                    Task::BinaryApply { operator, left } => {
                        self.binary_operator(&operator, left, value);
                    },
                    Task::Logical { operator, right } => {
                        self.logical(&operator, value, right);
                    },
                    Task::Declare { name } => {
                        self.declare(&name, value);
                    },
                    Task::Assign { id, name } => {
                        self.assign(id, &name, value);
                    },
                    Task::If { body, else_block } => {
                        self.if_block(value, body, else_block);
                    },
                    Task::WhileCondition { condition, body } => {
                        self.while_block(value, condition, body);
                    },
                    Task::WhileBody { condition, body } => {
                        let again = clone_node(&condition);
                        self.push_task(Task::WhileCondition { condition, body });
                        self.work = Work::Evaluate(again);
                    },
                    Task::Callee { args } => {
                        self.call(value, args);
                    },
                    Task::Arguments { function, args, values } => {
                        let mut values = values;
                        let ghost before = object_views(values@);
                        values.push(value);
                        assert(object_views(values@) =~= before.push(value@));
                        if values.len() < args.len() {
                            let node = clone_node(&args[values.len()]);
                            self.push_task(Task::Arguments { function, args, values });
                            self.work = Work::Evaluate(node);
                        } else {
                            function.call(self, values);
                        }
                    },
                    Task::Call => {
                        self.pop_frame();
                        self.work = Work::Deliver(Object::Nothing);
                    },
                    Task::Return => {
                        self.return_statement(value);
                    },
                    Task::Repeat { .. } => {
                        self.raise(stray_reply_text());
                    },
                }
            },
        }
    }

    fn leave(&mut self) -> (left: Option<Task>)
        ensures
            final(self)@ == semantics::leave(old(self)@),
            match left {
                Some(task) => old(self)@.tasks.len() > 0 && task@ == old(self)@.tasks.last(),
                None => old(self)@.tasks.len() == 0,
            },
    {
        let left = self.tasks.pop();
        match &left {
            Some(task) => {
                assert(self@.tasks =~= old(self)@.tasks.drop_last());
                if task.owns_frame() {
                    self.pop_frame();
                }
            },
            None => {},
        }
        left
    }

    fn unwind(&mut self, value: Object)
        ensures
            final(self)@ == semantics::unwind(old(self)@, value@),
    {
        match self.leave() {
            None => {
                self.work = Work::Finished(Err(Error::Runtime(stray_return_text())));
            },
            Some(Task::Call) => {
                self.work = Work::Deliver(value);
            },
            Some(_) => {
                self.work = Work::Unwind(value);
            },
        }
    }

    fn fail(&mut self, error: Error)
        ensures
            final(self)@ == semantics::fail(old(self)@, error@),
    {
        match self.leave() {
            None => {
                self.work = Work::Finished(Err(error));
            },
            Some(_) => {
                self.work = Work::Fail(error);
            },
        }
    }

    /// What the host is to do now.
    pub fn action(&self) -> (action: Action)
        ensures
            action@ == semantics::action(self@),
    {
        match &self.work {
            Work::Await(request) => Action::Request(request.clone()),
            Work::Finished(result) => Action::Finished(clone_result(result)),
            _ => Action::Continue,
        }
    }

    /// Does one step, and says what the host is to do after it.
    pub fn step(&mut self) -> (action: Action)
        ensures
            final(self)@ == semantics::step(old(self)@),
            action@ == semantics::action(final(self)@),
    {
        let mut work = Work::Finished(Ok(Object::Nothing));
        core::mem::swap(&mut self.work, &mut work);
        match work {
            Work::Evaluate(node) => {
                self.traverse(node);
            },
            Work::Deliver(value) => {
                self.deliver(value);
            },
            Work::Unwind(value) => {
                self.unwind(value);
            },
            Work::Fail(error) => {
                self.fail(error);
            },
            Work::Await(request) => {
                self.work = Work::Await(request);
            },
            Work::Finished(result) => {
                self.work = Work::Finished(result);
            },
        }
        self.action()
    }

    /// Steps until the host is needed or the run has ended, `budget` steps at
    /// most, and says what the host is to do then.
    pub fn advance(&mut self, budget: usize) -> (action: Action)
        ensures
            final(self)@ == semantics::advance(old(self)@, budget as nat),
            action@ == semantics::action(final(self)@),
    {
        let mut left = budget;
        let mut action = self.action();
        while left > 0 && matches!(action, Action::Continue)
            invariant
                semantics::advance(old(self)@, budget as nat) == semantics::advance(
                    self@,
                    left as nat,
                ),
                action@ == semantics::action(self@),
            decreases left,
        {
            action = self.step();
            left -= 1;
        }
        action
    }

    /// Takes the host's reply to the request that the evaluator waits on.
    pub fn resume(&mut self, reply: Reply)
        ensures
            final(self)@ == semantics::resume(old(self)@, reply@),
    {
        let mut work = Work::Finished(Ok(Object::Nothing));
        core::mem::swap(&mut self.work, &mut work);
        match work {
            Work::Await(request) => match reply {
                Reply::Failure(message) => {
                    self.raise(message);
                },
                Reply::Value(value) => match request {
                    Request::Arithmetic { .. } => {
                        self.work = Work::Deliver(value);
                    },
                    Request::Negate { .. } => {
                        self.work = Work::Deliver(value);
                    },
                    Request::Native { .. } => {
                        self.work = Work::Deliver(value);
                    },
                    _ => {
                        self.raise(stray_reply_text());
                    },
                },
                Reply::Count(count) => match request {
                    Request::Count { .. } => {
                        match self.tasks.pop() {
                            Some(Task::Repeat { text }) => {
                                assert(self@.tasks =~= old(self)@.tasks.drop_last());
                                self.work = Work::Deliver(Object::String(repeat(&text, count)));
                            },
                            Some(other) => {
                                self.tasks.push(other);
                                assert(self@.tasks =~= old(self)@.tasks);
                                self.raise(stray_reply_text());
                            },
                            None => {
                                self.raise(stray_reply_text());
                            },
                        }
                    },
                    _ => {
                        self.raise(stray_reply_text());
                    },
                },
                Reply::Text(text) => match request {
                    Request::Display { .. } => {
                        let shown = integral_text(&text);
                        self.raise(not_callable_text(&shown));
                    },
                    _ => {
                        self.raise(stray_reply_text());
                    },
                },
            },
            other => {
                self.work = other;
            },
        }
    }

    /// Begins a run of a program: the local frames are dropped, the program
    /// waits as the only task, and the global table and the distances stay.
    pub fn run(&mut self, nodes: &Vec<Node>)
        ensures
            final(self)@ == semantics::run(old(self)@, crate::ast::node_views(nodes@)),
    {
        self.environments = Vec::new();
        let mut tasks: Vec<Task> = Vec::new();
        tasks.push(Task::Program { statements: crate::ast::clone_nodes(nodes), next: 0 });
        self.tasks = tasks;
        self.work = Work::Deliver(Object::Nothing);
        assert(self@.environments =~= Seq::empty());
        assert(self@.tasks =~= semantics::run(old(self)@, crate::ast::node_views(nodes@)).tasks);
    }
}

} // verus!
