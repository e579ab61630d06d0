//! What holds of every run: the frames follow the tasks, an error or a `return`
//! leaves every block on its way out, and `and` and `or` leave their right
//! operand alone when the left one decides.

use vstd::prelude::*;
use crate::ast::{SpecNode, SpecLiteral};
use crate::token::SpecToken;
use crate::error::SpecError;
use crate::function::SpecFunction;
use crate::interpreter::SpecObject;
use crate::machine::{SpecTask, SpecWork, SpecReply};
use crate::semantics::{
    SpecInterpreter, step, resume, run, initial, advance, action, with_work, pop_task, raise,
    literal, short_circuits, arity_message, deliver, leave, invoke, call, declare, traverse,
};

verus! {

/// How many frames the tasks own: one for each block and each call.
pub open spec fn owed(tasks: Seq<SpecTask>) -> nat
    decreases tasks.len(),
{
    if tasks.len() == 0 {
        0
    } else if tasks.last().owns_frame() {
        owed(tasks.drop_last()) + 1
    } else {
        owed(tasks.drop_last())
    }
}

/// Whether there are exactly as many frames as the tasks own.
pub open spec fn balanced(m: SpecInterpreter) -> bool {
    m.environments.len() == owed(m.tasks)
}

proof fn lemma_owed_push(tasks: Seq<SpecTask>, task: SpecTask)
    ensures
        owed(tasks.push(task)) == owed(tasks) + if task.owns_frame() {
            1nat
        } else {
            0nat
        },
{
    assert(tasks.push(task).drop_last() =~= tasks);
}

/// A step keeps the frames in balance with the tasks: a block or a call that
/// begins adds one frame, and one that ends takes it away again, however it
/// ends.
pub proof fn law_step_keeps_balance(m: SpecInterpreter)
    requires
        balanced(m),
    ensures
        balanced(step(m)),
{
    match m.work {
        SpecWork::Evaluate(node) => {
            match node {
                SpecNode::Block(statements) => {
                    lemma_owed_push(m.tasks, SpecTask::Block { statements, next: 0 });
                },
                SpecNode::BinaryOperator { operator, right, .. } => {
                    lemma_owed_push(m.tasks, SpecTask::BinaryRight { operator, right: *right });
                },
                SpecNode::UnaryOperator { operator, .. } => {
                    lemma_owed_push(m.tasks, SpecTask::Unary { operator });
                },
                SpecNode::Logical { operator, right, .. } => {
                    lemma_owed_push(m.tasks, SpecTask::Logical { operator, right: *right });
                },
                SpecNode::Declare { name, .. } => {
                    lemma_owed_push(m.tasks, SpecTask::Declare { name });
                },
                SpecNode::Assign { id, name, .. } => {
                    lemma_owed_push(m.tasks, SpecTask::Assign { id, name });
                },
                SpecNode::If { body, else_block, .. } => {
                    lemma_owed_push(
                        m.tasks,
                        SpecTask::If {
                            body: *body,
                            else_block: match else_block {
                                Some(other) => Some(*other),
                                None => None,
                            },
                        },
                    );
                },
                SpecNode::While { condition, body, .. } => {
                    lemma_owed_push(
                        m.tasks,
                        SpecTask::WhileCondition { condition: *condition, body: *body },
                    );
                },
                SpecNode::Return { .. } => {
                    lemma_owed_push(m.tasks, SpecTask::Return);
                },
                SpecNode::FnCall { args, .. } => {
                    lemma_owed_push(m.tasks, SpecTask::Callee { args });
                },
                _ => {},
            }
        },
        SpecWork::Deliver(value) => {
            lemma_deliver_keeps_balance(m, value);
        },
        SpecWork::Unwind(_) => {},
        SpecWork::Fail(_) => {},
        SpecWork::Await(_) => {},
        SpecWork::Finished(_) => {},
    }
}

proof fn lemma_invoke_keeps_balance(
    m: SpecInterpreter,
    function: SpecFunction,
    values: Seq<SpecObject>,
)
    requires
        balanced(m),
    ensures
        balanced(invoke(m, function, values)),
{
    lemma_owed_push(m.tasks, SpecTask::Call);
}

proof fn lemma_deliver_keeps_balance(m: SpecInterpreter, value: SpecObject)
    requires
        balanced(m),
    ensures
        balanced(deliver(m, value)),
{
    if m.tasks.len() > 0 {
        let rest = pop_task(m);
        match m.tasks.last() {
            SpecTask::Program { statements, next } => {
                lemma_owed_push(
                    rest.tasks,
                    SpecTask::Program { statements, next: (next + 1) as usize },
                );
            },
            SpecTask::Block { statements, next } => {
                lemma_owed_push(rest.tasks, SpecTask::Block { statements, next: (next + 1) as usize });
            },
            SpecTask::BinaryRight { operator, .. } => {
                lemma_owed_push(rest.tasks, SpecTask::BinaryApply { operator, left: value });
            },
            SpecTask::BinaryApply { operator, left } => {
                match left {
                    SpecObject::String(text) => {
                        lemma_owed_push(rest.tasks, SpecTask::Repeat { text });
                    },
                    _ => {},
                }
            },
            SpecTask::WhileCondition { condition, body } => {
                lemma_owed_push(rest.tasks, SpecTask::WhileBody { condition, body });
            },
            SpecTask::WhileBody { condition, body } => {
                lemma_owed_push(rest.tasks, SpecTask::WhileCondition { condition, body });
            },
            SpecTask::Callee { args } => {
                match value {
                    SpecObject::Function(function) => {
                        lemma_invoke_keeps_balance(rest, function, Seq::empty());
                        lemma_owed_push(
                            rest.tasks,
                            SpecTask::Arguments { function, args, values: Seq::empty() },
                        );
                    },
                    _ => {},
                }
            },
            SpecTask::Arguments { function, args, values } => {
                lemma_invoke_keeps_balance(rest, function, values.push(value));
                lemma_owed_push(
                    rest.tasks,
                    SpecTask::Arguments { function, args, values: values.push(value) },
                );
            },
            _ => {},
        }
    }
}

/// A reply keeps the frames in balance with the tasks.
pub proof fn law_resume_keeps_balance(m: SpecInterpreter, reply: SpecReply)
    requires
        balanced(m),
    ensures
        balanced(resume(m, reply)),
{
}

/// A new evaluator is in balance, and so is every run when it begins.
pub proof fn law_runs_begin_balanced(m: SpecInterpreter, program: Seq<SpecNode>)
    ensures
        balanced(initial()),
        balanced(run(m, program)),
{
    let tasks = run(m, program).tasks;
    assert(tasks.drop_last() =~= Seq::<SpecTask>::empty());
    assert(owed(tasks.drop_last()) == 0);
}

/// The state in which a run has ended with an error and nothing is left over.
pub open spec fn ended(m: SpecInterpreter, error: SpecError) -> SpecInterpreter {
    SpecInterpreter {
        environments: Seq::empty(),
        tasks: Seq::empty(),
        work: SpecWork::Finished(Err(error)),
        ..m
    }
}

/// An error ends the run without asking the host, in one step for each waiting
/// task and one more, and leaves no task and no frame behind: every block and
/// every call that was entered is left.
pub proof fn law_error_leaves_everything(m: SpecInterpreter, error: SpecError)
    requires
        balanced(m),
        m.work == SpecWork::Fail(error),
    ensures
        advance(m, m.tasks.len() + 1) == ended(m, error),
    decreases m.tasks.len(),
{
    if m.tasks.len() == 0 {
        assert(m.environments =~= Seq::empty());
        assert(m.tasks =~= Seq::empty());
        let after = step(m);
        assert(after == ended(m, error));
        assert(advance(after, 0) == after);
    } else {
        let after = step(m);
        law_step_keeps_balance(m);
        law_error_leaves_everything(after, error);
        assert(ended(after, error) == ended(m, error));
    }
}

/// Whether no task of the sequence is a call.
pub open spec fn no_call(tasks: Seq<SpecTask>) -> bool {
    forall|i: int| 0 <= i < tasks.len() ==> !(#[trigger] tasks[i] is Call)
}

/// A `return` ends the call around it without asking the host: it leaves the
/// tasks inside the call and their frames, then the call and the frame of its
/// parameters, and its value is delivered to what waited for the call.
pub proof fn law_return_leaves_call(
    m: SpecInterpreter,
    value: SpecObject,
    outer: Seq<SpecTask>,
    inner: Seq<SpecTask>,
)
    requires
        balanced(m),
        m.work == SpecWork::Unwind(value),
        m.tasks == outer.push(SpecTask::Call) + inner,
        no_call(inner),
    ensures
        advance(m, inner.len() + 1) == (SpecInterpreter {
            environments: m.environments.take(owed(outer) as int),
            tasks: outer,
            work: SpecWork::Deliver(value),
            ..m
        }),
    decreases inner.len(),
{
    let target = SpecInterpreter {
        environments: m.environments.take(owed(outer) as int),
        tasks: outer,
        work: SpecWork::Deliver(value),
        ..m
    };
    let after = step(m);
    law_step_keeps_balance(m);
    if inner.len() == 0 {
        assert(m.tasks =~= outer.push(SpecTask::Call));
        lemma_owed_push(outer, SpecTask::Call);
        assert(m.tasks.drop_last() =~= outer);
        assert(after.environments =~= m.environments.take(owed(outer) as int));
        assert(after == target);
        assert(advance(after, 0) == after);
    } else {
        let rest = inner.drop_last();
        assert(m.tasks.last() == inner.last());
        assert(!(inner[inner.len() - 1] is Call));
        assert(m.tasks.drop_last() =~= outer.push(SpecTask::Call) + rest);
        assert(no_call(rest));
        law_return_leaves_call(after, value, outer, rest);
        lemma_owed_prefix(outer.push(SpecTask::Call), inner);
        lemma_owed_prefix(outer.push(SpecTask::Call), rest);
        lemma_owed_push(outer, SpecTask::Call);
        assert(after.environments.take(owed(outer) as int) =~= m.environments.take(
            owed(outer) as int,
        ));
    }
}

proof fn lemma_owed_prefix(first: Seq<SpecTask>, second: Seq<SpecTask>)
    ensures
        owed(first + second) >= owed(first),
    decreases second.len(),
{
    if second.len() == 0 {
        assert(first + second =~= first);
    } else {
        assert((first + second).drop_last() =~= first + second.drop_last());
        lemma_owed_prefix(first, second.drop_last());
    }
}

/// `and` with a false literal on the left and `or` with a true one take three
/// steps and ask the host for nothing; then the left operand's value is
/// delivered and the state is otherwise as it was. The right operand is never
/// the work at hand, whatever it is.
pub proof fn law_short_circuit(
    m: SpecInterpreter,
    id: usize,
    inner: usize,
    left: SpecLiteral,
    operator: SpecToken,
    right: SpecNode,
)
    requires
        short_circuits(operator, literal(left)),
        m.work == SpecWork::Evaluate(
            SpecNode::Logical {
                id,
                left: Box::new(SpecNode::Literal { id: inner, value: left }),
                operator,
                right: Box::new(right),
            },
        ),
    ensures
        advance(m, 3) == with_work(m, SpecWork::Deliver(literal(left))),
        action(step(m)) is Continue,
        action(step(step(m))) is Continue,
{
    let first = step(m);
    let second = step(first);
    let third = step(second);
    assert(first.tasks.drop_last() =~= m.tasks);
    assert(third == with_work(m, SpecWork::Deliver(literal(left))));
    assert(advance(third, 0) == third);
    assert(advance(second, 1) == third);
    assert(advance(first, 2) == third);
}

/// A call with another number of arguments than the function takes fails with
/// a message that names both numbers, as soon as the callee's value is known:
/// no argument is evaluated, no frame is made, and the body is never the work
/// at hand.
pub proof fn law_arity_mismatch(m: SpecInterpreter, function: SpecFunction, args: Seq<SpecNode>)
    requires
        m.work == SpecWork::Deliver(SpecObject::Function(function)),
        m.tasks.len() > 0,
        m.tasks.last() == (SpecTask::Callee { args }),
        args.len() != function.arity(),
    ensures
        step(m) == raise(pop_task(m), arity_message(function.arity(), args.len())),
        balanced(m) ==> advance(m, m.tasks.len() + 1) == ended(
            m,
            SpecError::Runtime(arity_message(function.arity(), args.len())),
        ),
{
    if balanced(m) {
        let error = SpecError::Runtime(arity_message(function.arity(), args.len()));
        let after = step(m);
        law_step_keeps_balance(m);
        law_error_leaves_everything(after, error);
        assert(ended(after, error) == ended(m, error));
    }
}

/// However the host cuts a run into advances, the evaluator goes the same way:
/// to advance by one budget and then by another is to advance by their sum.
pub proof fn law_advance_adds_up(m: SpecInterpreter, first: nat, second: nat)
    ensures
        advance(advance(m, first), second) == advance(m, first + second),
    decreases first,
{
    if first == 0 {
        assert(advance(m, 0) == m);
    } else if !(action(m) is Continue) {
        lemma_advance_waits(m, second);
        lemma_advance_waits(m, first + second);
    } else {
        law_advance_adds_up(step(m), (first - 1) as nat, second);
    }
}

/// While the host owes a reply, and when the run has ended, to advance changes
/// nothing.
proof fn lemma_advance_waits(m: SpecInterpreter, budget: nat)
    requires
        !(action(m) is Continue),
    ensures
        advance(m, budget) == m,
        step(m) == m,
{
}

/// A run that has ended stays ended, and a request stands until it is
/// answered: steps and advances change nothing then, and a reply changes
/// nothing unless a request stands.
pub proof fn law_waiting_is_stable(m: SpecInterpreter, budget: nat, reply: SpecReply)
    ensures
        !(action(m) is Continue) ==> step(m) == m && advance(m, budget) == m,
        !(action(m) is Request) ==> resume(m, reply) == m,
{
    if !(action(m) is Continue) {
        lemma_advance_waits(m, budget);
    }
}

/// Evaluation reads the resolver's distances and never writes them: no step
/// and no reply changes the table.
pub proof fn law_distances_are_read_only(m: SpecInterpreter, budget: nat, reply: SpecReply)
    ensures
        step(m).depths == m.depths,
        resume(m, reply).depths == m.depths,
        advance(m, budget).depths == m.depths,
    decreases budget,
{
    lemma_step_keeps_distances(m);
    if budget > 0 && action(m) is Continue {
        law_distances_are_read_only(step(m), (budget - 1) as nat, reply);
    }
}

proof fn lemma_step_keeps_distances(m: SpecInterpreter)
    ensures
        step(m).depths == m.depths,
{
}

/// A declaration inside a block or a call is local: it binds the name in the
/// innermost frame and changes neither the global table nor any frame around
/// it, so a name that it shadows keeps its value there. And a block begins with
/// a frame of its own that binds nothing, whatever the frames around it bind.
pub proof fn law_declaration_is_local(
    m: SpecInterpreter,
    name: SpecToken,
    value: SpecObject,
    statements: Seq<SpecNode>,
)
    requires
        m.environments.len() > 0,
    ensures
        declare(m, name, value).globals == m.globals,
        declare(m, name, value).environments.len() == m.environments.len(),
        declare(m, name, value).environments.drop_last() == m.environments.drop_last(),
        declare(m, name, value).environments.last() == m.environments.last().insert(
            name.value,
            value,
        ),
        traverse(m, SpecNode::Block(statements)).environments == m.environments.push(Map::empty()),
        traverse(m, SpecNode::Block(statements)).globals == m.globals,
{
    assert(declare(m, name, value).environments.drop_last() =~= m.environments.drop_last());
}

} // verus!
