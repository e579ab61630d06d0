//! Static scope resolution: for every variable reference and assignment, how many
//! scopes lie between the use and the scope that declares the name.

use vstd::prelude::*;
use vstd::hash_map::StringHashMap;
use vstd::string::StringExecFns;
use std::collections::HashMap;
use crate::ast::{Node, SpecNode, node_views};
use crate::token::{Token, SpecToken, token_views};
use crate::error::{Error, SpecError};
use crate::text::{decimal, usize_to_string};

verus! {

broadcast use vstd::std_specs::hash::group_hash_axioms;

/// The resolver's state as mathematics: the stack of scopes, innermost last,
/// each mapping a declared name to whether its initializer is done; and whether a
/// function body is being resolved.
pub struct SpecResolver {
    pub scopes: Seq<Map<Seq<char>, bool>>,
    pub is_fn: bool,
}

/// What resolving ends in: the state reached, the distances written on the way
/// by node identifier, and the message of the syntax error that stopped it, if
/// one did.
pub struct Resolution {
    pub state: SpecResolver,
    pub writes: Map<usize, usize>,
    pub failure: Option<Seq<char>>,
}

/// The state before anything is resolved.
pub open spec fn fresh() -> SpecResolver {
    SpecResolver { scopes: Seq::empty(), is_fn: false }
}

/// The outcome that writes nothing and does not fail.
pub open spec fn done(state: SpecResolver) -> Resolution {
    Resolution { state, writes: Map::empty(), failure: None }
}

/// The outcome that writes nothing and fails.
pub open spec fn failed(state: SpecResolver, message: Seq<char>) -> Resolution {
    Resolution { state, writes: Map::empty(), failure: Some(message) }
}

/// One outcome followed by another: the later state and failure, and the writes
/// of both, the later ones on top.
pub open spec fn after(first: Resolution, second: Resolution) -> Resolution {
    Resolution {
        state: second.state,
        writes: first.writes.union_prefer_right(second.writes),
        failure: second.failure,
    }
}

/// The message for a name read inside its own initializer.
pub open spec fn self_read_message(name: SpecToken) -> Seq<char> {
    "'"@ + name.value + "' cannot be read in its own declaration. ["@ + decimal(name.line as nat)
        + ":"@ + decimal(name.column as nat) + "]"@
}

/// The message for a `return` that stands in no function body.
pub open spec fn stray_return_message() -> Seq<char> {
    "Cannot return outside of a function declaration."@
}

/// Enters a scope.
pub open spec fn begin_scope(st: SpecResolver) -> SpecResolver {
    SpecResolver { scopes: st.scopes.push(Map::empty()), ..st }
}

/// Leaves the innermost scope.
pub open spec fn end_scope(st: SpecResolver) -> SpecResolver {
    if st.scopes.len() > 0 {
        SpecResolver { scopes: st.scopes.drop_last(), ..st }
    } else {
        st
    }
}

/// Records a name in the innermost scope with the given state; outside every
/// scope nothing is recorded.
pub open spec fn mark(st: SpecResolver, name: Seq<char>, ready: bool) -> SpecResolver {
    if st.scopes.len() > 0 {
        SpecResolver {
            scopes: st.scopes.update(st.scopes.len() - 1, st.scopes.last().insert(name, ready)),
            ..st
        }
    } else {
        st
    }
}

/// Marks a name as declared, its initializer still to come.
pub open spec fn declare(st: SpecResolver, name: Seq<char>) -> SpecResolver {
    mark(st, name, false)
}

/// Marks a name as ready for use.
pub open spec fn define(st: SpecResolver, name: Seq<char>) -> SpecResolver {
    mark(st, name, true)
}

/// How many scopes lie above the innermost scope that holds the name.
pub open spec fn distance(scopes: Seq<Map<Seq<char>, bool>>, name: Seq<char>) -> Option<nat>
    decreases scopes.len(),
{
    if scopes.len() == 0 {
        None
    } else if scopes.last().contains_key(name) {
        Some(0)
    } else {
        match distance(scopes.drop_last(), name) {
            Some(d) => Some(d + 1),
            None => None,
        }
    }
}

/// The entry that a use of a name writes under the node's identifier: its
/// distance; a name that no scope holds writes nothing.
pub open spec fn resolve_local(st: SpecResolver, id: usize, name: Seq<char>) -> Resolution {
    match distance(st.scopes, name) {
        Some(d) => Resolution {
            state: st,
            writes: Map::<usize, usize>::empty().insert(id, d as usize),
            failure: None,
        },
        None => done(st),
    }
}

/// Whether the innermost scope holds the name with its initializer still open.
pub open spec fn pending_here(st: SpecResolver, name: Seq<char>) -> bool {
    st.scopes.len() > 0 && st.scopes.last().contains_key(name) && !st.scopes.last()[name]
}

/// The scope of a function's parameters: each name, ready for use.
pub open spec fn parameter_scope(args: Seq<SpecToken>) -> Map<Seq<char>, bool> {
    Map::new(
        |name: Seq<char>| exists|i: int| 0 <= i < args.len() && #[trigger] args[i].value == name,
        |name: Seq<char>| true,
    )
}

/// What a function declaration does before its body is resolved: the name is
/// declared and ready in the current scope, and a new scope holds the parameters.
pub open spec fn enter_function(
    st: SpecResolver,
    name: Seq<char>,
    args: Seq<SpecToken>,
) -> SpecResolver {
    let named = define(declare(SpecResolver { is_fn: true, ..st }, name), name);
    SpecResolver { scopes: named.scopes.push(parameter_scope(args)), ..named }
}

/// What a function declaration does after its body: the parameters' scope is
/// left, and the resolver is inside a function only if it was before.
pub open spec fn leave_function(st: SpecResolver, was: bool) -> SpecResolver {
    SpecResolver { is_fn: was, ..end_scope(st) }
}

/// Resolves one node.
pub open spec fn resolve(st: SpecResolver, node: SpecNode) -> Resolution
    decreases node, 0nat,
{
    match node {
        SpecNode::Block(nodes) => {
            let inner = resolve_from(begin_scope(st), nodes, 0);
            if inner.failure is Some {
                inner
            } else {
                after(inner, done(end_scope(inner.state)))
            }
        },
        SpecNode::Assign { id, name, value } => {
            let r = resolve(st, *value);
            if r.failure is Some {
                r
            } else {
                after(r, resolve_local(r.state, id, name.value))
            }
        },
        SpecNode::BinaryOperator { left, right, .. } => {
            let l = resolve(st, *left);
            if l.failure is Some {
                l
            } else {
                after(l, resolve(l.state, *right))
            }
        },
        SpecNode::Logical { left, right, .. } => {
            let l = resolve(st, *left);
            if l.failure is Some {
                l
            } else {
                after(l, resolve(l.state, *right))
            }
        },
        SpecNode::UnaryOperator { child, .. } => resolve(st, *child),
        SpecNode::Declare { name, value, .. } => {
            let r = resolve(declare(st, name.value), *value);
            if r.failure is Some {
                r
            } else {
                after(r, done(define(r.state, name.value)))
            }
        },
        SpecNode::If { condition, body, else_block, .. } => {
            let c = resolve(st, *condition);
            if c.failure is Some {
                c
            } else {
                let b = after(c, resolve(c.state, *body));
                if b.failure is Some {
                    b
                } else {
                    match else_block {
                        Some(other) => after(b, resolve(b.state, *other)),
                        None => b,
                    }
                }
            }
        },
        SpecNode::While { condition, body, .. } => {
            let c = resolve(st, *condition);
            if c.failure is Some {
                c
            } else {
                after(c, resolve(c.state, *body))
            }
        },
        SpecNode::Variable { id, name } => {
            if pending_here(st, name.value) {
                failed(st, self_read_message(name))
            } else {
                resolve_local(st, id, name.value)
            }
        },
        SpecNode::DeclareFn { name, args, body, .. } => {
            let r = resolve(enter_function(st, name.value, args), *body);
            if r.failure is Some {
                r
            } else {
                after(r, done(leave_function(r.state, st.is_fn)))
            }
        },
        SpecNode::Return { value, .. } => {
            if !st.is_fn {
                failed(st, stray_return_message())
            } else {
                resolve(st, *value)
            }
        },
        SpecNode::FnCall { name, args, .. } => {
            let callee = resolve(st, *name);
            if callee.failure is Some {
                callee
            } else {
                after(callee, resolve_from(callee.state, args, 0))
            }
        },
        SpecNode::Literal { .. } => done(st),
    }
}

/// Resolves the nodes of a sequence from position `from` on, in order, and
/// stops at the first that fails.
pub open spec fn resolve_from(st: SpecResolver, nodes: Seq<SpecNode>, from: nat) -> Resolution
    decreases nodes, nodes.len() - from,
{
    if from >= nodes.len() {
        done(st)
    } else {
        let r = resolve(st, nodes[from as int]);
        if r.failure is Some {
            r
        } else {
            after(r, resolve_from(r.state, nodes, from + 1))
        }
    }
}

/// Whether a call that began with the table `before` ended as the outcome says:
/// in the outcome's state, with the outcome's writes laid over the table, and
/// with a syntax error carrying the outcome's message exactly when it failed.
pub open spec fn settles(
    outcome: Resolution,
    before: Map<usize, usize>,
    state: SpecResolver,
    table: Map<usize, usize>,
    result: Result<(), Error>,
) -> bool {
    &&& outcome.state == state
    &&& table == before.union_prefer_right(outcome.writes)
    &&& match outcome.failure {
        None => result is Ok,
        Some(message) => result is Err && result->Err_0@ == SpecError::Syntax(message),
    }
}

/// The views of a stack of scopes, innermost last.
pub open spec fn scope_views(scopes: Seq<StringHashMap<bool>>) -> Seq<Map<Seq<char>, bool>> {
    scopes.map_values(|scope: StringHashMap<bool>| scope@)
}

proof fn lemma_distance_found(scopes: Seq<Map<Seq<char>, bool>>, name: Seq<char>, d: nat)
    requires
        d < scopes.len(),
        scopes[scopes.len() - 1 - d].contains_key(name),
        forall|j: int| 0 <= j < d ==> !(#[trigger] scopes[scopes.len() - 1 - j]).contains_key(name),
    ensures
        distance(scopes, name) == Some(d),
    decreases d,
{
    if d > 0 {
        assert(!scopes[scopes.len() - 1 - 0].contains_key(name));
        let rest = scopes.drop_last();
        assert forall|j: int| 0 <= j < d - 1 implies !(#[trigger] rest[rest.len() - 1 - j]).contains_key(
            name,
        ) by {
            assert(rest[rest.len() - 1 - j] == scopes[scopes.len() - 1 - (j + 1)]);
        }
        lemma_distance_found(rest, name, (d - 1) as nat);
    }
}

proof fn lemma_distance_absent(scopes: Seq<Map<Seq<char>, bool>>, name: Seq<char>)
    requires
        forall|j: int| 0 <= j < scopes.len() ==> !(#[trigger] scopes[j]).contains_key(name),
    ensures
        distance(scopes, name) is None,
    decreases scopes.len(),
{
    if scopes.len() > 0 {
        lemma_distance_absent(scopes.drop_last(), name);
    }
}

/// Laying writes over a table one after another is laying their union over it.
pub proof fn lemma_union_associative(
    a: Map<usize, usize>,
    b: Map<usize, usize>,
    c: Map<usize, usize>,
)
    ensures
        a.union_prefer_right(b).union_prefer_right(c) == a.union_prefer_right(
            b.union_prefer_right(c),
        ),
        a.union_prefer_right(Map::empty()) == a,
        Map::<usize, usize>::empty().union_prefer_right(a) == a,
{
    assert(a.union_prefer_right(b).union_prefer_right(c) =~= a.union_prefer_right(
        b.union_prefer_right(c),
    ));
    assert(a.union_prefer_right(Map::empty()) =~= a);
    assert(Map::<usize, usize>::empty().union_prefer_right(a) =~= a);
}

/// The resolver: a stack of scopes and whether a function body is being
/// resolved. The table of distances belongs to the evaluator and is handed to
/// each call.
pub struct Resolver {
    scopes: Vec<StringHashMap<bool>>,
    is_fn: bool,
}

impl View for Resolver {
    type V = SpecResolver;

    closed spec fn view(&self) -> SpecResolver {
        SpecResolver { scopes: scope_views(self.scopes@), is_fn: self.is_fn }
    }
}

impl Resolver {
    /// A resolver outside every scope and every function.
    pub fn new() -> (resolver: Self)
        ensures
            resolver@ == fresh(),
    {
        let resolver = Resolver { scopes: Vec::new(), is_fn: false };
        assert(resolver@.scopes =~= fresh().scopes);
        resolver
    }

    fn begin_scope(&mut self)
        ensures
            final(self)@ == begin_scope(old(self)@),
    {
        self.scopes.push(StringHashMap::new());
        assert(self@.scopes =~= old(self)@.scopes.push(Map::empty()));
    }

    fn end_scope(&mut self)
        ensures
            final(self)@ == end_scope(old(self)@),
    {
        self.scopes.pop();
        proof {
            if old(self).scopes@.len() > 0 {
                assert(self@.scopes =~= old(self)@.scopes.drop_last());
            }
        }
    }

    fn mark(&mut self, name: String, ready: bool)
        ensures
            final(self)@ == mark(old(self)@, name@, ready),
    {
        match self.scopes.pop() {
            Some(scope) => {
                let mut scope = scope;
                scope.insert(name, ready);
                self.scopes.push(scope);
                assert(self@.scopes =~= mark(old(self)@, name@, ready).scopes);
            },
            None => {},
        }
    }

    fn declare(&mut self, name: String)
        ensures
            final(self)@ == declare(old(self)@, name@),
    {
        self.mark(name, false)
    }

    fn define(&mut self, name: String)
        ensures
            final(self)@ == define(old(self)@, name@),
    {
        self.mark(name, true)
    }

    fn resolve_local(&self, depths: &mut HashMap<usize, usize>, expr: usize, name: &String)
        ensures
            settles(resolve_local(self@, expr, name@), old(depths)@, self@, final(depths)@, Ok(())),
    {
        let count = self.scopes.len();
        let mut above: usize = 0;
        while above < count
            invariant
                above <= count,
                count == self.scopes.len(),
                forall|j: int|
                    0 <= j < above ==> !(#[trigger] self@.scopes[count - 1 - j]).contains_key(name@),
                *depths == *old(depths),
            decreases count - above,
        {
            assert(self@.scopes[count - 1 - above] == self.scopes@[count - 1 - above]@);
            if self.scopes[count - 1 - above].contains_key(name.as_str()) {
                proof {
                    lemma_distance_found(self@.scopes, name@, above as nat);
                }
                depths.insert(expr, above);
                assert(depths@ =~= old(depths)@.union_prefer_right(
                    Map::<usize, usize>::empty().insert(expr, above),
                ));
                return ;
            }
            above += 1;
        }
        proof {
            assert forall|j: int| 0 <= j < self@.scopes.len() implies !(#[trigger] self@.scopes[j]).contains_key(
                name@,
            ) by {
                assert(self@.scopes[count - 1 - (count - 1 - j)] == self@.scopes[j]);
            }
            lemma_distance_absent(self@.scopes, name@);
            lemma_union_associative(depths@, Map::empty(), Map::empty());
        }
    }

    fn variable(&self, depths: &mut HashMap<usize, usize>, id: usize, name: &Token) -> (result:
        Result<(), Error>)
        ensures
            settles(
                resolve(self@, SpecNode::Variable { id, name: name@ }),
                old(depths)@,
                self@,
                final(depths)@,
                result,
            ),
    {
        let count = self.scopes.len();
        if count > 0 {
            assert(self@.scopes.last() == self.scopes@[count - 1]@);
            match self.scopes[count - 1].get(name.value.as_str()) {
                Some(ready) => {
                    if !*ready {
                        proof {
                            lemma_union_associative(depths@, Map::empty(), Map::empty());
                        }
                        return Err(Error::Syntax(self_read_text(name)));
                    }
                },
                None => {},
            }
        }
        self.resolve_local(depths, id, &name.value);
        Ok(())
    }

    fn declare_fn(&mut self, name: &Token, args: &Vec<Token>) -> (was: bool)
        ensures
            was == old(self)@.is_fn,
            final(self)@ == enter_function(old(self)@, name@.value, token_views(args@)),
    {
        let was = self.is_fn;
        self.is_fn = true;
        self.declare(name.value.clone());
        self.define(name.value.clone());
        let mut scope: StringHashMap<bool> = StringHashMap::new();
        let mut i: usize = 0;
        assert(parameter_scope(token_views(args@).take(0)) =~= Map::<Seq<char>, bool>::empty());
        while i < args.len()
            invariant
                i <= args.len(),
                scope@ == parameter_scope(token_views(args@).take(i as int)),
            decreases args.len() - i,
        {
            scope.insert(args[i].value.clone(), true);
            proof {
                let views = token_views(args@);
                let before = views.take(i as int);
                let after = views.take(i + 1);
                assert(after[i as int].value == args[i as int]@.value);
                assert forall|name: Seq<char>| #[trigger]
                    parameter_scope(after).contains_key(name) <==> (name == args[i as int]@.value
                        || parameter_scope(before).contains_key(name)) by {
                    if parameter_scope(after).contains_key(name) {
                        let j = choose|j: int| 0 <= j < after.len() && #[trigger] after[j].value == name;
                        if j < i {
                            assert(before[j].value == name);
                        }
                    }
                    if parameter_scope(before).contains_key(name) {
                        let j = choose|j: int|
                            0 <= j < before.len() && #[trigger] before[j].value == name;
                        assert(after[j].value == name);
                    }
                }
                assert(scope@ =~= parameter_scope(after));
            }
            i += 1;
        }
        assert(token_views(args@).take(args.len() as int) =~= token_views(args@));
        let ghost named = self@.scopes;
        self.scopes.push(scope);
        assert(self@.scopes =~= named.push(parameter_scope(token_views(args@))));
        was
    }

    fn leave_function(&mut self, was: bool)
        ensures
            final(self)@ == leave_function(old(self)@, was),
    {
        self.end_scope();
        self.is_fn = was;
    }

    /// Resolves the nodes of a list in order, without entering a scope, and stops
    /// at the first that fails. On the statements of a program this is the whole
    /// of resolution: the distances of its uses are written into `depths`.
    pub fn resolve_block(
        &mut self,
        depths: &mut HashMap<usize, usize>,
        nodes: &Vec<Node>,
    ) -> (result:
        Result<(), Error>)
        ensures
            settles(
                resolve_from(old(self)@, node_views(nodes@), 0),
                old(depths)@,
                final(self)@,
                final(depths)@,
                result,
            ),
        decreases nodes,
    {
        let ghost views = node_views(nodes@);
        let ghost mut written: Map<usize, usize> = Map::empty();
        let mut i: usize = 0;
        proof {
            lemma_union_associative(depths@, Map::empty(), Map::empty());
            lemma_union_associative(resolve_from(self@, views, 0).writes, Map::empty(), Map::empty());
        }
        while i < nodes.len()
            invariant
                i <= nodes.len(),
                views == node_views(nodes@),
                depths@ == old(depths)@.union_prefer_right(written),
                resolve_from(old(self)@, views, 0) == after(
                    Resolution { state: self@, writes: written, failure: None },
                    resolve_from(self@, views, i as nat),
                ),
            decreases nodes.len() - i,
        {
            assert(views[i as int] == nodes[i as int]@);
            let ghost one = resolve(self@, views[i as int]);
            let ghost rest = resolve_from(one.state, views, (i + 1) as nat);
            proof {
                lemma_union_associative(old(depths)@, written, one.writes);
                lemma_union_associative(written, one.writes, rest.writes);
            }
            self.resolve(depths, &nodes[i])?;
            proof {
                written = written.union_prefer_right(one.writes);
            }
            i += 1;
        }
        proof {
            lemma_union_associative(written, Map::empty(), Map::empty());
        }
        Ok(())
    }

    /// Resolves one node and what stands below it.
    pub fn resolve(&mut self, depths: &mut HashMap<usize, usize>, expr: &Node) -> (result: Result<
        (),
        Error,
    >)
        ensures
            settles(resolve(old(self)@, expr@), old(depths)@, final(self)@, final(depths)@, result),
        decreases expr,
    {
        let ghost before = depths@;
        match expr {
            Node::Block(nodes) => {
                self.begin_scope();
                self.resolve_block(depths, nodes)?;
                self.end_scope();
                proof {
                    let inner = resolve_from(begin_scope(old(self)@), node_views(nodes@), 0);
                    lemma_union_associative(inner.writes, Map::empty(), Map::empty());
                }
                Ok(())
            },
            Node::Assign { id, name, value } => {
                self.resolve(depths, value)?;
                let ghost first = resolve(old(self)@, value@);
                self.resolve_local(depths, *id, &name.value);
                proof {
                    lemma_union_associative(
                        before,
                        first.writes,
                        resolve_local(first.state, *id, name@.value).writes,
                    );
                }
                Ok(())
            },
            Node::BinaryOperator { left, right, .. } => {
                self.resolve(depths, left)?;
                let ghost first = resolve(old(self)@, left@);
                proof {
                    lemma_union_associative(before, first.writes, resolve(first.state, right@).writes);
                }
                self.resolve(depths, right)
            },
            Node::Logical { left, right, .. } => {
                self.resolve(depths, left)?;
                let ghost first = resolve(old(self)@, left@);
                proof {
                    lemma_union_associative(before, first.writes, resolve(first.state, right@).writes);
                }
                self.resolve(depths, right)
            },
            Node::UnaryOperator { child, .. } => self.resolve(depths, child),
            Node::Declare { name, value, .. } => {
                self.declare(name.value.clone());
                self.resolve(depths, value)?;
                self.define(name.value.clone());
                proof {
                    let r = resolve(declare(old(self)@, name@.value), value@);
                    lemma_union_associative(r.writes, Map::empty(), Map::empty());
                }
                Ok(())
            },
            Node::If { condition, body, else_block, .. } => {
                self.resolve(depths, condition)?;
                let ghost first = resolve(old(self)@, condition@);
                let ghost second = resolve(first.state, body@);
                proof {
                    lemma_union_associative(before, first.writes, second.writes);
                }
                self.resolve(depths, body)?;
                match else_block {
                    Some(other) => {
                        proof {
                            lemma_union_associative(
                                before,
                                first.writes.union_prefer_right(second.writes),
                                resolve(second.state, other@).writes,
                            );
                        }
                        self.resolve(depths, other)
                    },
                    None => Ok(()),
                }
            },
            Node::While { condition, body, .. } => {
                self.resolve(depths, condition)?;
                let ghost first = resolve(old(self)@, condition@);
                proof {
                    lemma_union_associative(before, first.writes, resolve(first.state, body@).writes);
                }
                self.resolve(depths, body)
            },
            Node::Variable { id, name } => self.variable(depths, *id, name),
            Node::DeclareFn { name, args, body, .. } => {
                let was = self.declare_fn(name, args);
                self.resolve(depths, body)?;
                self.leave_function(was);
                proof {
                    let r = resolve(
                        enter_function(old(self)@, name@.value, token_views(args@)),
                        body@,
                    );
                    lemma_union_associative(r.writes, Map::empty(), Map::empty());
                }
                Ok(())
            },
            Node::Return { value, .. } => {
                if !self.is_fn {
                    proof {
                        lemma_union_associative(before, Map::empty(), Map::empty());
                    }
                    Err(Error::Syntax(String::from_str("Cannot return outside of a function declaration.")))
                } else {
                    self.resolve(depths, value)
                }
            },
            Node::FnCall { name, args, .. } => {
                self.resolve(depths, name)?;
                let ghost first = resolve(old(self)@, name@);
                proof {
                    lemma_union_associative(
                        before,
                        first.writes,
                        resolve_from(first.state, node_views(args@), 0).writes,
                    );
                }
                self.resolve_block(depths, args)
            },
            Node::Literal { .. } => {
                proof {
                    lemma_union_associative(before, Map::empty(), Map::empty());
                }
                Ok(())
            },
        }
    }
}

/// Builds the message for a name read inside its own initializer.
fn self_read_text(name: &Token) -> (message: String)
    ensures
        message@ == self_read_message(name@),
{
    let mut message = String::from_str("'");
    message.append(name.value.as_str());
    message.append("' cannot be read in its own declaration. [");
    message.append(usize_to_string(name.line).as_str());
    message.append(":");
    message.append(usize_to_string(name.column).as_str());
    message.append("]");
    message
}

} // verus!
