//! Function values: declared in a program, or provided by the host.

use vstd::prelude::*;
use crate::token::{Token, SpecToken, token_views, clone_tokens};
use crate::ast::{Node, SpecNode, clone_node};
use crate::environment::Environment;
use crate::interpreter::{Interpreter, Object, object_views};
use crate::machine::{Request, Task, Work};
use crate::semantics;

verus! {

/// A function value.
///
/// A user-defined function owns its parameter names and its body. A native
/// function is known by its name and its fixed number of arguments; the host
/// that drives the interpreter holds the code that the name stands for.
#[allow(inconsistent_fields)]
pub enum Function {
    UserDefined { args: Vec<Token>, body: Node, name: Token },
    Native { arg_len: usize, name: String },
}

/// The mathematical value of a [`Function`].
#[allow(inconsistent_fields)]
pub enum SpecFunction {
    UserDefined { args: Seq<SpecToken>, body: SpecNode, name: SpecToken },
    Native { arg_len: usize, name: Seq<char> },
}

impl View for Function {
    type V = SpecFunction;

    open spec fn view(&self) -> SpecFunction {
        match self {
            Function::UserDefined { args, body, name } => SpecFunction::UserDefined {
                args: token_views(args@),
                body: body@,
                name: name@,
            },
            Function::Native { arg_len, name } => SpecFunction::Native {
                arg_len: *arg_len,
                name: name@,
            },
        }
    }
}

impl SpecFunction {
    /// The number of arguments that a call must give.
    pub open spec fn arity(self) -> nat {
        match self {
            SpecFunction::UserDefined { args, .. } => args.len(),
            SpecFunction::Native { arg_len, .. } => arg_len as nat,
        }
    }
}

impl Clone for Function {
    fn clone(&self) -> (copy: Self)
        ensures
            copy@ == self@,
    {
        match self {
            Function::UserDefined { args, body, name } => Function::UserDefined {
                args: clone_tokens(args),
                body: clone_node(body),
                name: name.clone(),
            },
            Function::Native { arg_len, name } => Function::Native {
                arg_len: *arg_len,
                name: name.clone(),
            },
        }
    }
}

impl Function {
    /// Invokes the function on its arguments. A native function becomes a
    /// request to the host. A user-defined function gets a new frame that binds
    /// its parameters by position, the call waits as a task, and the body is
    /// the work at hand.
    pub fn call(self, interpreter: &mut Interpreter, actual_args: Vec<Object>)
        ensures
            final(interpreter)@ == semantics::invoke(
                old(interpreter)@,
                self@,
                object_views(actual_args@),
            ),
    {
        match self {
            Function::UserDefined { args, body, .. } => {
                let count = if args.len() <= actual_args.len() {
                    args.len()
                } else {
                    actual_args.len()
                };
                let ghost params = token_views(args@);
                let ghost values = object_views(actual_args@);
                let mut frame = Environment::new();
                let mut i: usize = 0;
                while i < count
                    invariant
                        i <= count,
                        count <= args.len(),
                        count <= actual_args.len(),
                        params == token_views(args@),
                        values == object_views(actual_args@),
                        frame@ == semantics::bound(params, values, i as nat),
                    decreases count - i,
                {
                    frame.assign(args[i].value.clone(), actual_args[i].clone());
                    i += 1;
                }
                interpreter.push_frame(frame);
                interpreter.push_task(Task::Call);
                interpreter.work = Work::Evaluate(body);
            },
            Function::Native { name, .. } => {
                interpreter.work = Work::Await(Request::Native { name, args: actual_args });
            },
        }
    }

    /// The number of arguments that a call must give.
    pub fn arity(&self) -> (n: usize)
        ensures
            n == self@.arity(),
    {
        match self {
            Function::UserDefined { args, .. } => args.len(),
            Function::Native { arg_len, .. } => *arg_len,
        }
    }
}

} // verus!
