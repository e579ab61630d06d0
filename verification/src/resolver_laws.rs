//! What holds of every resolution: when it succeeds, when it fails, what it does
//! to the scopes, and that it can be repeated.

use vstd::prelude::*;
use crate::ast::SpecNode;
use crate::resolver::{
    SpecResolver, resolve, resolve_from, begin_scope, declare, define, enter_function, pending_here,
    parameter_scope, fresh, distance,
};

verus! {

/// The distance of a name is that of the innermost scope that holds it: the
/// scope at that distance from the innermost holds the name, and no scope inside
/// it does; a name has no distance exactly when no scope holds it.
pub proof fn law_distance_is_innermost(scopes: Seq<Map<Seq<char>, bool>>, name: Seq<char>)
    ensures
        match distance(scopes, name) {
            Some(d) => {
                &&& d < scopes.len()
                &&& scopes[scopes.len() - 1 - d].contains_key(name)
                &&& forall|j: int|
                    0 <= j < d ==> !(#[trigger] scopes[scopes.len() - 1 - j]).contains_key(name)
            },
            None => forall|i: int| 0 <= i < scopes.len() ==> !(#[trigger] scopes[i]).contains_key(name),
        },
    decreases scopes.len(),
{
    if scopes.len() > 0 && !scopes.last().contains_key(name) {
        let rest = scopes.drop_last();
        law_distance_is_innermost(rest, name);
        match distance(rest, name) {
            Some(d) => {
                assert(rest[rest.len() - 1 - d] == scopes[scopes.len() - 1 - (d + 1)]);
                assert forall|j: int| 0 <= j < d + 1 implies !(#[trigger] scopes[scopes.len() - 1
                    - j]).contains_key(name) by {
                    if j > 0 {
                        assert(rest[rest.len() - 1 - (j - 1)] == scopes[scopes.len() - 1 - j]);
                    }
                }
            },
            None => {
                assert forall|i: int| 0 <= i < scopes.len() implies !(#[trigger] scopes[i]).contains_key(
                    name,
                ) by {
                    if i < rest.len() {
                        assert(rest[i] == scopes[i]);
                    }
                }
            },
        }
    }
}

/// Whether a variable reference with this name stands anywhere in the subtree.
pub open spec fn mentions(node: SpecNode, name: Seq<char>) -> bool
    decreases node,
{
    match node {
        SpecNode::Variable { name: used, .. } => used.value == name,
        SpecNode::Literal { .. } => false,
        SpecNode::UnaryOperator { child, .. } => mentions(*child, name),
        SpecNode::BinaryOperator { left, right, .. } => mentions(*left, name) || mentions(
            *right,
            name,
        ),
        SpecNode::Logical { left, right, .. } => mentions(*left, name) || mentions(*right, name),
        SpecNode::Declare { value, .. } => mentions(*value, name),
        SpecNode::Assign { value, .. } => mentions(*value, name),
        SpecNode::Return { value, .. } => mentions(*value, name),
        SpecNode::If { condition, body, else_block, .. } => {
            ||| mentions(*condition, name)
            ||| mentions(*body, name)
            ||| match else_block {
                Some(other) => mentions(*other, name),
                None => false,
            }
        },
        SpecNode::While { condition, body, .. } => mentions(*condition, name) || mentions(
            *body,
            name,
        ),
        SpecNode::DeclareFn { body, .. } => mentions(*body, name),
        SpecNode::FnCall { name: callee, args, .. } => {
            ||| mentions(*callee, name)
            ||| exists|i: int| 0 <= i < args.len() && mentions(#[trigger] args[i], name)
        },
        SpecNode::Block(nodes) => exists|i: int|
            0 <= i < nodes.len() && mentions(#[trigger] nodes[i], name),
    }
}

/// Whether no declaration in the subtree has a reference to its own name
/// anywhere in its initializer.
pub open spec fn no_self_reference(node: SpecNode) -> bool
    decreases node,
{
    match node {
        SpecNode::Variable { .. } => true,
        SpecNode::Literal { .. } => true,
        SpecNode::UnaryOperator { child, .. } => no_self_reference(*child),
        SpecNode::BinaryOperator { left, right, .. } => no_self_reference(*left)
            && no_self_reference(*right),
        SpecNode::Logical { left, right, .. } => no_self_reference(*left) && no_self_reference(
            *right,
        ),
        SpecNode::Declare { name, value, .. } => !mentions(*value, name.value)
            && no_self_reference(*value),
        SpecNode::Assign { value, .. } => no_self_reference(*value),
        SpecNode::Return { value, .. } => no_self_reference(*value),
        SpecNode::If { condition, body, else_block, .. } => {
            &&& no_self_reference(*condition)
            &&& no_self_reference(*body)
            &&& match else_block {
                Some(other) => no_self_reference(*other),
                None => true,
            }
        },
        SpecNode::While { condition, body, .. } => no_self_reference(*condition)
            && no_self_reference(*body),
        SpecNode::DeclareFn { body, .. } => no_self_reference(*body),
        SpecNode::FnCall { name: callee, args, .. } => {
            &&& no_self_reference(*callee)
            &&& forall|i: int| 0 <= i < args.len() ==> no_self_reference(#[trigger] args[i])
        },
        SpecNode::Block(nodes) => forall|i: int|
            0 <= i < nodes.len() ==> no_self_reference(#[trigger] nodes[i]),
    }
}

/// Whether every `return` in the subtree stands in a function body, given
/// whether the subtree itself does.
pub open spec fn returns_in_functions(node: SpecNode, inside: bool) -> bool
    decreases node,
{
    match node {
        SpecNode::Variable { .. } => true,
        SpecNode::Literal { .. } => true,
        SpecNode::UnaryOperator { child, .. } => returns_in_functions(*child, inside),
        SpecNode::BinaryOperator { left, right, .. } => returns_in_functions(*left, inside)
            && returns_in_functions(*right, inside),
        SpecNode::Logical { left, right, .. } => returns_in_functions(*left, inside)
            && returns_in_functions(*right, inside),
        SpecNode::Declare { value, .. } => returns_in_functions(*value, inside),
        SpecNode::Assign { value, .. } => returns_in_functions(*value, inside),
        SpecNode::Return { value, .. } => inside && returns_in_functions(*value, inside),
        SpecNode::If { condition, body, else_block, .. } => {
            &&& returns_in_functions(*condition, inside)
            &&& returns_in_functions(*body, inside)
            &&& match else_block {
                Some(other) => returns_in_functions(*other, inside),
                None => true,
            }
        },
        SpecNode::While { condition, body, .. } => returns_in_functions(*condition, inside)
            && returns_in_functions(*body, inside),
        SpecNode::DeclareFn { body, .. } => returns_in_functions(*body, true),
        SpecNode::FnCall { name: callee, args, .. } => {
            &&& returns_in_functions(*callee, inside)
            &&& forall|i: int|
                0 <= i < args.len() ==> returns_in_functions(#[trigger] args[i], inside)
        },
        SpecNode::Block(nodes) => forall|i: int|
            0 <= i < nodes.len() ==> returns_in_functions(#[trigger] nodes[i], inside),
    }
}

/// Whether resolving the subtree makes the name ready in the scope it starts
/// in: a declaration of the name, or a function of that name, that no block and
/// no function body stands around.
pub open spec fn defines(node: SpecNode, name: Seq<char>) -> bool
    decreases node, 0nat,
{
    match node {
        SpecNode::Variable { .. } => false,
        SpecNode::Literal { .. } => false,
        SpecNode::UnaryOperator { child, .. } => defines(*child, name),
        SpecNode::BinaryOperator { left, right, .. } => defines(*left, name) || defines(
            *right,
            name,
        ),
        SpecNode::Logical { left, right, .. } => defines(*left, name) || defines(*right, name),
        SpecNode::Declare { name: declared, value, .. } => declared.value == name || defines(
            *value,
            name,
        ),
        SpecNode::Assign { value, .. } => defines(*value, name),
        SpecNode::Return { value, .. } => defines(*value, name),
        SpecNode::If { condition, body, else_block, .. } => {
            ||| defines(*condition, name)
            ||| defines(*body, name)
            ||| match else_block {
                Some(other) => defines(*other, name),
                None => false,
            }
        },
        SpecNode::While { condition, body, .. } => defines(*condition, name) || defines(
            *body,
            name,
        ),
        SpecNode::DeclareFn { name: declared, .. } => declared.value == name,
        SpecNode::FnCall { name: callee, args, .. } => defines(*callee, name) || defines_from(
            args,
            0,
            name,
        ),
        SpecNode::Block(_) => false,
    }
}

/// Whether one of the nodes from position `from` on makes the name ready.
pub open spec fn defines_from(nodes: Seq<SpecNode>, from: nat, name: Seq<char>) -> bool
    decreases nodes, 0nat,
{
    exists|i: int| from <= i < nodes.len() && defines(#[trigger] nodes[i], name)
}

/// A scope laid over with names made ready.
pub open spec fn made_ready(scope: Map<Seq<char>, bool>, names: Set<Seq<char>>) -> Map<
    Seq<char>,
    bool,
> {
    scope.union_prefer_right(Map::new(|name: Seq<char>| names.contains(name), |name: Seq<char>| true))
}

/// Whether `after` differs from `before` only in its innermost scope, and
/// there only in that the given names are ready.
pub open spec fn changed_by(
    before: SpecResolver,
    after: SpecResolver,
    names: Set<Seq<char>>,
) -> bool {
    &&& after.is_fn == before.is_fn
    &&& after.scopes.len() == before.scopes.len()
    &&& forall|i: int| 0 <= i < before.scopes.len() - 1 ==> after.scopes[i] == before.scopes[i]
    &&& before.scopes.len() > 0 ==> after.scopes.last() == made_ready(before.scopes.last(), names)
}

proof fn lemma_effect(st: SpecResolver, node: SpecNode)
    ensures
        resolve(st, node).failure is None ==> changed_by(
            st,
            resolve(st, node).state,
            Set::new(|name: Seq<char>| defines(node, name)),
        ),
    decreases node, 0nat,
{
    let r = resolve(st, node);
    let names = Set::new(|name: Seq<char>| defines(node, name));
    if r.failure is None {
        match node {
            SpecNode::Block(nodes) => {
                let entered = begin_scope(st);
                lemma_effect_from(entered, nodes, 0);
                let inner = resolve_from(entered, nodes, 0);
                assert(r.state.scopes =~= st.scopes);
                if st.scopes.len() > 0 {
                    assert(made_ready(st.scopes.last(), names) =~= st.scopes.last());
                }
            },
            SpecNode::Assign { value, .. } => {
                lemma_effect(st, *value);
                lemma_same_names(st, r.state, Set::new(|name: Seq<char>| defines(*value, name)), names);
            },
            SpecNode::BinaryOperator { left, right, .. } => {
                lemma_effect(st, *left);
                let l = resolve(st, *left);
                lemma_effect(l.state, *right);
                lemma_effect_twice(
                    st,
                    l.state,
                    r.state,
                    Set::new(|name: Seq<char>| defines(*left, name)),
                    Set::new(|name: Seq<char>| defines(*right, name)),
                    names,
                );
            },
            SpecNode::Logical { left, right, .. } => {
                lemma_effect(st, *left);
                let l = resolve(st, *left);
                lemma_effect(l.state, *right);
                lemma_effect_twice(
                    st,
                    l.state,
                    r.state,
                    Set::new(|name: Seq<char>| defines(*left, name)),
                    Set::new(|name: Seq<char>| defines(*right, name)),
                    names,
                );
            },
            SpecNode::UnaryOperator { child, .. } => {
                lemma_effect(st, *child);
                lemma_same_names(st, r.state, Set::new(|name: Seq<char>| defines(*child, name)), names);
            },
            SpecNode::Declare { name, value, .. } => {
                let declared = declare(st, name.value);
                lemma_effect(declared, *value);
                let inner = resolve(declared, *value);
                if st.scopes.len() > 0 {
                    assert(r.state.scopes.last() =~= made_ready(st.scopes.last(), names));
                }
            },
            SpecNode::If { condition, body, else_block, .. } => {
                lemma_effect(st, *condition);
                let c = resolve(st, *condition);
                lemma_effect(c.state, *body);
                let b = resolve(c.state, *body);
                let first = Set::new(|name: Seq<char>| defines(*condition, name));
                let second = Set::new(|name: Seq<char>| defines(*body, name));
                match else_block {
                    Some(other) => {
                        lemma_effect(b.state, *other);
                        let third = Set::new(|name: Seq<char>| defines(*other, name));
                        lemma_effect_twice(st, c.state, b.state, first, second, first.union(second));
                        lemma_effect_twice(st, b.state, r.state, first.union(second), third, names);
                    },
                    None => {
                        lemma_effect_twice(st, c.state, b.state, first, second, names);
                    },
                }
            },
            SpecNode::While { condition, body, .. } => {
                lemma_effect(st, *condition);
                let c = resolve(st, *condition);
                lemma_effect(c.state, *body);
                lemma_effect_twice(
                    st,
                    c.state,
                    r.state,
                    Set::new(|name: Seq<char>| defines(*condition, name)),
                    Set::new(|name: Seq<char>| defines(*body, name)),
                    names,
                );
            },
            SpecNode::Variable { .. } => {
                lemma_same_names(st, st, Set::empty(), names);
            },
            SpecNode::DeclareFn { name, args, body, .. } => {
                let entered = enter_function(st, name.value, args);
                lemma_effect(entered, *body);
                let inner = resolve(entered, *body);
                let named = define(declare(SpecResolver { is_fn: true, ..st }, name.value), name.value);
                assert(r.state.scopes =~= named.scopes);
                if st.scopes.len() > 0 {
                    assert(r.state.scopes.last() =~= made_ready(st.scopes.last(), names));
                }
            },
            SpecNode::Return { value, .. } => {
                lemma_effect(st, *value);
                lemma_same_names(st, r.state, Set::new(|name: Seq<char>| defines(*value, name)), names);
            },
            SpecNode::FnCall { name, args, .. } => {
                lemma_effect(st, *name);
                let callee = resolve(st, *name);
                lemma_effect_from(callee.state, args, 0);
                lemma_effect_twice(
                    st,
                    callee.state,
                    r.state,
                    Set::new(|k: Seq<char>| defines(*name, k)),
                    Set::new(|k: Seq<char>| defines_from(args, 0, k)),
                    names,
                );
            },
            SpecNode::Literal { .. } => {
                lemma_same_names(st, st, Set::empty(), names);
            },
        }
    }
}

proof fn lemma_same_names(
    before: SpecResolver,
    after: SpecResolver,
    names: Set<Seq<char>>,
    same: Set<Seq<char>>,
)
    requires
        names =~= same,
        changed_by(before, after, names) || (before == after && names =~= Set::<Seq<char>>::empty()),
    ensures
        changed_by(before, after, same),
{
    if before.scopes.len() > 0 {
        assert(made_ready(before.scopes.last(), Set::<Seq<char>>::empty()) =~= before.scopes.last());
    }
}

proof fn lemma_effect_twice(
    before: SpecResolver,
    middle: SpecResolver,
    after: SpecResolver,
    first: Set<Seq<char>>,
    second: Set<Seq<char>>,
    both: Set<Seq<char>>,
)
    requires
        changed_by(before, middle, first),
        changed_by(middle, after, second),
        both =~= first.union(second),
    ensures
        changed_by(before, after, both),
{
    if before.scopes.len() > 0 {
        assert(made_ready(made_ready(before.scopes.last(), first), second) =~= made_ready(
            before.scopes.last(),
            both,
        ));
    }
}

proof fn lemma_effect_from(st: SpecResolver, nodes: Seq<SpecNode>, from: nat)
    ensures
        resolve_from(st, nodes, from).failure is None ==> changed_by(
            st,
            resolve_from(st, nodes, from).state,
            Set::new(|name: Seq<char>| defines_from(nodes, from, name)),
        ),
    decreases nodes, nodes.len() - from,
{
    let all = resolve_from(st, nodes, from);
    let names = Set::new(|name: Seq<char>| defines_from(nodes, from, name));
    if all.failure is None {
        if from < nodes.len() {
            lemma_effect(st, nodes[from as int]);
            let r = resolve(st, nodes[from as int]);
            lemma_effect_from(r.state, nodes, from + 1);
            let first = Set::new(|name: Seq<char>| defines(nodes[from as int], name));
            let second = Set::new(|name: Seq<char>| defines_from(nodes, from + 1, name));
            assert forall|name: Seq<char>| names.contains(name) <==> first.union(second).contains(
                name,
            ) by {
                if defines_from(nodes, from, name) {
                    let i = choose|i: int| from <= i < nodes.len() && defines(#[trigger] nodes[i], name);
                    if i != from {
                        assert(from + 1 <= i);
                    }
                }
                if defines_from(nodes, from + 1, name) {
                    let i = choose|i: int|
                        from + 1 <= i < nodes.len() && defines(#[trigger] nodes[i], name);
                    assert(from <= i);
                }
            }
            lemma_effect_twice(st, r.state, all.state, first, second, names);
        } else {
            lemma_same_names(st, st, Set::empty(), names);
        }
    }
}

/// Resolving a node that does not fail leaves the stack of scopes as high as
/// it was, whether a function body is being resolved as it was, and every scope
/// but the innermost untouched; in the innermost it only makes ready the names
/// that the node declares there.
pub proof fn law_scopes_balanced(st: SpecResolver, node: SpecNode)
    requires
        resolve(st, node).failure is None,
    ensures
        changed_by(st, resolve(st, node).state, Set::new(|name: Seq<char>| defines(node, name))),
        node is Block ==> resolve(st, node).state == st,
{
    lemma_effect(st, node);
    if node is Block {
        let after = resolve(st, node).state;
        if st.scopes.len() > 0 {
            assert(made_ready(st.scopes.last(), Set::new(|name: Seq<char>| defines(node, name)))
                =~= st.scopes.last());
        }
        assert(after.scopes =~= st.scopes);
    }
}

/// Whether some scope holds the name with its initializer still open.
pub open spec fn pending(st: SpecResolver, name: Seq<char>) -> bool {
    exists|i: int|
        0 <= i < st.scopes.len() && (#[trigger] st.scopes[i]).contains_key(name)
            && !st.scopes[i][name]
}

proof fn lemma_pending_kept(before: SpecResolver, after: SpecResolver, names: Set<Seq<char>>)
    requires
        changed_by(before, after, names),
    ensures
        forall|name: Seq<char>| pending(after, name) ==> pending(before, name),
{
    assert forall|name: Seq<char>| pending(after, name) implies pending(before, name) by {
        let i = choose|i: int|
            0 <= i < after.scopes.len() && (#[trigger] after.scopes[i]).contains_key(name)
                && !after.scopes[i][name];
        assert(before.scopes[i].contains_key(name) && !before.scopes[i][name]);
    }
}

proof fn lemma_pending_declared(st: SpecResolver, declared: Seq<char>, name: Seq<char>)
    requires
        pending(declare(st, declared), name),
    ensures
        pending(st, name) || name == declared,
{
    let after = declare(st, declared);
    let i = choose|i: int|
        0 <= i < after.scopes.len() && (#[trigger] after.scopes[i]).contains_key(name)
            && !after.scopes[i][name];
    if name != declared {
        assert(st.scopes[i].contains_key(name) && !st.scopes[i][name]);
    }
}

proof fn lemma_pending_entered(st: SpecResolver, scope: Map<Seq<char>, bool>, name: Seq<char>)
    requires
        forall|k: Seq<char>| scope.contains_key(k) ==> scope[k],
        pending(SpecResolver { scopes: st.scopes.push(scope), ..st }, name),
    ensures
        pending(st, name),
{
    let after = SpecResolver { scopes: st.scopes.push(scope), ..st };
    let i = choose|i: int|
        0 <= i < after.scopes.len() && (#[trigger] after.scopes[i]).contains_key(name)
            && !after.scopes[i][name];
    assert(i < st.scopes.len());
    assert(st.scopes[i].contains_key(name) && !st.scopes[i][name]);
}

proof fn lemma_pending_function(st: SpecResolver, declared: Seq<char>, name: Seq<char>)
    requires
        pending(define(declare(SpecResolver { is_fn: true, ..st }, declared), declared), name),
    ensures
        pending(st, name),
{
    let after = define(declare(SpecResolver { is_fn: true, ..st }, declared), declared);
    let i = choose|i: int|
        0 <= i < after.scopes.len() && (#[trigger] after.scopes[i]).contains_key(name)
            && !after.scopes[i][name];
    assert(st.scopes[i].contains_key(name) && !st.scopes[i][name]);
}

/// What the success law needs of a node in a state: its returns stand in
/// functions, no declaration refers to itself, and it mentions no name whose
/// initializer is open.
pub open spec fn admissible(st: SpecResolver, node: SpecNode) -> bool {
    &&& returns_in_functions(node, st.is_fn)
    &&& no_self_reference(node)
    &&& forall|name: Seq<char>| pending(st, name) ==> !mentions(node, name)
}

proof fn lemma_carry(st: SpecResolver, node: SpecNode, next: SpecResolver, child: SpecNode)
    requires
        admissible(st, node),
        next.is_fn == st.is_fn,
        forall|name: Seq<char>| pending(next, name) ==> pending(st, name),
        returns_in_functions(child, st.is_fn),
        no_self_reference(child),
        forall|name: Seq<char>| mentions(child, name) ==> mentions(node, name),
    ensures
        admissible(next, child),
{
    assert forall|name: Seq<char>| pending(next, name) implies !mentions(child, name) by {
        assert(pending(st, name));
        assert(!mentions(node, name));
    }
}

/// After a child that did not fail, the next child is admissible too.
proof fn lemma_next(st: SpecResolver, node: SpecNode, done: SpecNode, child: SpecNode)
    requires
        admissible(st, node),
        resolve(st, done).failure is None,
        returns_in_functions(child, st.is_fn),
        no_self_reference(child),
        forall|name: Seq<char>| mentions(child, name) ==> mentions(node, name),
    ensures
        admissible(resolve(st, done).state, child),
{
    lemma_effect(st, done);
    lemma_pending_kept(st, resolve(st, done).state, Set::new(|name: Seq<char>| defines(done, name)));
    lemma_carry(st, node, resolve(st, done).state, child);
}

proof fn lemma_succeeds(st: SpecResolver, node: SpecNode)
    requires
        admissible(st, node),
    ensures
        resolve(st, node).failure is None,
    decreases node, 0nat,
{
    match node {
        SpecNode::Block(nodes) => {
            let entered = begin_scope(st);
            assert forall|name: Seq<char>| pending(entered, name) implies pending(st, name) by {
                lemma_pending_entered(st, Map::empty(), name);
            }
            assert forall|i: int| 0 <= i < nodes.len() implies admissible(
                entered,
                #[trigger] nodes[i],
            ) by {
                lemma_carry(st, node, entered, nodes[i]);
            }
            lemma_succeeds_from(entered, nodes, 0);
        },
        SpecNode::Assign { value, .. } => {
            lemma_succeeds(st, *value);
        },
        SpecNode::BinaryOperator { left, right, .. } => {
            lemma_succeeds(st, *left);
            lemma_next(st, node, *left, *right);
            lemma_succeeds(resolve(st, *left).state, *right);
        },
        SpecNode::Logical { left, right, .. } => {
            lemma_succeeds(st, *left);
            lemma_next(st, node, *left, *right);
            lemma_succeeds(resolve(st, *left).state, *right);
        },
        SpecNode::UnaryOperator { child, .. } => {
            lemma_succeeds(st, *child);
        },
        SpecNode::Declare { name, value, .. } => {
            let declared = declare(st, name.value);
            assert forall|other: Seq<char>| pending(declared, other) implies !mentions(
                *value,
                other,
            ) by {
                lemma_pending_declared(st, name.value, other);
            }
            lemma_succeeds(declared, *value);
        },
        SpecNode::If { condition, body, else_block, .. } => {
            lemma_succeeds(st, *condition);
            lemma_next(st, node, *condition, *body);
            let c = resolve(st, *condition);
            lemma_succeeds(c.state, *body);
            match else_block {
                Some(other) => {
                    assert forall|name: Seq<char>| mentions(*body, name) implies mentions(
                        node,
                        name,
                    ) by {}
                    lemma_effect(st, *condition);
                    lemma_pending_kept(
                        st,
                        c.state,
                        Set::new(|name: Seq<char>| defines(*condition, name)),
                    );
                    lemma_carry(st, node, c.state, node);
                    lemma_next(c.state, node, *body, *other);
                    lemma_succeeds(resolve(c.state, *body).state, *other);
                },
                None => {},
            }
        },
        SpecNode::While { condition, body, .. } => {
            lemma_succeeds(st, *condition);
            lemma_next(st, node, *condition, *body);
            lemma_succeeds(resolve(st, *condition).state, *body);
        },
        SpecNode::Variable { name, .. } => {
            if pending_here(st, name.value) {
                assert(st.scopes[st.scopes.len() - 1].contains_key(name.value));
                assert(pending(st, name.value));
            }
        },
        SpecNode::DeclareFn { name, args, body, .. } => {
            let named = define(declare(SpecResolver { is_fn: true, ..st }, name.value), name.value);
            let entered = enter_function(st, name.value, args);
            assert forall|other: Seq<char>| pending(entered, other) implies !mentions(
                *body,
                other,
            ) by {
                lemma_pending_entered(named, parameter_scope(args), other);
                lemma_pending_function(st, name.value, other);
            }
            lemma_succeeds(entered, *body);
        },
        SpecNode::Return { value, .. } => {
            lemma_succeeds(st, *value);
        },
        SpecNode::FnCall { name, args, .. } => {
            lemma_succeeds(st, *name);
            let callee = resolve(st, *name);
            assert forall|i: int| 0 <= i < args.len() implies admissible(
                callee.state,
                #[trigger] args[i],
            ) by {
                lemma_next(st, node, *name, args[i]);
            }
            lemma_succeeds_from(callee.state, args, 0);
        },
        SpecNode::Literal { .. } => {},
    }
}

proof fn lemma_succeeds_from(st: SpecResolver, nodes: Seq<SpecNode>, from: nat)
    requires
        forall|i: int| from <= i < nodes.len() ==> admissible(st, #[trigger] nodes[i]),
    ensures
        resolve_from(st, nodes, from).failure is None,
    decreases nodes, nodes.len() - from,
{
    if from < nodes.len() {
        lemma_succeeds(st, nodes[from as int]);
        let r = resolve(st, nodes[from as int]);
        assert forall|i: int| from + 1 <= i < nodes.len() implies admissible(
            r.state,
            #[trigger] nodes[i],
        ) by {
            lemma_effect(st, nodes[from as int]);
            lemma_pending_kept(
                st,
                r.state,
                Set::new(|name: Seq<char>| defines(nodes[from as int], name)),
            );
            lemma_carry(st, nodes[i], r.state, nodes[i]);
        }
        lemma_succeeds_from(r.state, nodes, from + 1);
    }
}

/// A program resolves without error if each `return` in it stands in a function
/// body and no declaration has a reference to its own name in its initializer.
/// Whether its names are declared at all plays no part: a name that no scope
/// holds is left to the global table.
pub proof fn law_resolution_succeeds(program: Seq<SpecNode>)
    requires
        forall|i: int|
            0 <= i < program.len() ==> returns_in_functions(#[trigger] program[i], false),
        forall|i: int| 0 <= i < program.len() ==> no_self_reference(#[trigger] program[i]),
    ensures
        resolve_from(fresh(), program, 0).failure is None,
{
    assert forall|name: Seq<char>| !pending(fresh(), name) by {}
    lemma_succeeds_from(fresh(), program, 0);
}

/// Whether resolving the subtree comes to a reference to the name in the scope
/// it starts in, before anything has made the name ready there: no block and no
/// function body stands around the reference, and no declaration of the name is
/// completed before it.
pub open spec fn reads(node: SpecNode, name: Seq<char>) -> bool
    decreases node, 0nat,
{
    match node {
        SpecNode::Variable { name: used, .. } => used.value == name,
        SpecNode::Literal { .. } => false,
        SpecNode::UnaryOperator { child, .. } => reads(*child, name),
        SpecNode::BinaryOperator { left, right, .. } => reads(*left, name) || (!defines(
            *left,
            name,
        ) && reads(*right, name)),
        SpecNode::Logical { left, right, .. } => reads(*left, name) || (!defines(*left, name)
            && reads(*right, name)),
        SpecNode::Declare { value, .. } => reads(*value, name),
        SpecNode::Assign { value, .. } => reads(*value, name),
        SpecNode::Return { value, .. } => reads(*value, name),
        SpecNode::If { condition, body, else_block, .. } => {
            ||| reads(*condition, name)
            ||| (!defines(*condition, name) && reads(*body, name))
            ||| (!defines(*condition, name) && !defines(*body, name) && match else_block {
                Some(other) => reads(*other, name),
                None => false,
            })
        },
        SpecNode::While { condition, body, .. } => reads(*condition, name) || (!defines(
            *condition,
            name,
        ) && reads(*body, name)),
        SpecNode::DeclareFn { .. } => false,
        SpecNode::FnCall { name: callee, args, .. } => reads(*callee, name) || (!defines(
            *callee,
            name,
        ) && reads_from(args, 0, name)),
        SpecNode::Block(_) => false,
    }
}

/// Whether one of the nodes from position `from` on reads the name, and none
/// between `from` and it makes the name ready.
pub open spec fn reads_from(nodes: Seq<SpecNode>, from: nat, name: Seq<char>) -> bool
    decreases nodes, 0nat,
{
    exists|i: int|
        from <= i < nodes.len() && reads(#[trigger] nodes[i], name) && forall|j: int|
            from <= j < i ==> !defines(#[trigger] nodes[j], name)
}

/// A node that does not fail and does not make the name ready leaves its
/// initializer open.
proof fn lemma_still_pending(st: SpecResolver, node: SpecNode, name: Seq<char>)
    requires
        pending_here(st, name),
        resolve(st, node).failure is None,
        !defines(node, name),
    ensures
        pending_here(resolve(st, node).state, name),
{
    lemma_effect(st, node);
}

proof fn lemma_reads_fail(st: SpecResolver, node: SpecNode, name: Seq<char>)
    requires
        pending_here(st, name),
        reads(node, name),
    ensures
        resolve(st, node).failure is Some,
    decreases node, 0nat,
{
    match node {
        SpecNode::UnaryOperator { child, .. } => {
            lemma_reads_fail(st, *child, name);
        },
        SpecNode::BinaryOperator { left, right, .. } => {
            if reads(*left, name) {
                lemma_reads_fail(st, *left, name);
            } else if resolve(st, *left).failure is None {
                lemma_still_pending(st, *left, name);
                lemma_reads_fail(resolve(st, *left).state, *right, name);
            }
        },
        SpecNode::Logical { left, right, .. } => {
            if reads(*left, name) {
                lemma_reads_fail(st, *left, name);
            } else if resolve(st, *left).failure is None {
                lemma_still_pending(st, *left, name);
                lemma_reads_fail(resolve(st, *left).state, *right, name);
            }
        },
        SpecNode::Declare { name: declared, value, .. } => {
            lemma_reads_fail(declare(st, declared.value), *value, name);
        },
        SpecNode::Assign { value, .. } => {
            lemma_reads_fail(st, *value, name);
        },
        SpecNode::Return { value, .. } => {
            if st.is_fn {
                lemma_reads_fail(st, *value, name);
            }
        },
        SpecNode::If { condition, body, else_block, .. } => {
            if reads(*condition, name) {
                lemma_reads_fail(st, *condition, name);
            } else if resolve(st, *condition).failure is None {
                lemma_still_pending(st, *condition, name);
                let c = resolve(st, *condition);
                if reads(*body, name) {
                    lemma_reads_fail(c.state, *body, name);
                } else if resolve(c.state, *body).failure is None {
                    lemma_still_pending(c.state, *body, name);
                    match else_block {
                        Some(other) => {
                            lemma_reads_fail(resolve(c.state, *body).state, *other, name);
                        },
                        None => {},
                    }
                }
            }
        },
        SpecNode::While { condition, body, .. } => {
            if reads(*condition, name) {
                lemma_reads_fail(st, *condition, name);
            } else if resolve(st, *condition).failure is None {
                lemma_still_pending(st, *condition, name);
                lemma_reads_fail(resolve(st, *condition).state, *body, name);
            }
        },
        SpecNode::FnCall { name: callee, args, .. } => {
            if reads(*callee, name) {
                lemma_reads_fail(st, *callee, name);
            } else if resolve(st, *callee).failure is None {
                lemma_still_pending(st, *callee, name);
                lemma_reads_fail_from(resolve(st, *callee).state, args, 0, name);
            }
        },
        _ => {},
    }
}

proof fn lemma_reads_fail_from(st: SpecResolver, nodes: Seq<SpecNode>, from: nat, name: Seq<char>)
    requires
        pending_here(st, name),
        reads_from(nodes, from, name),
    ensures
        resolve_from(st, nodes, from).failure is Some,
    decreases nodes, nodes.len() - from,
{
    let i = choose|i: int|
        from <= i < nodes.len() && reads(#[trigger] nodes[i], name) && forall|j: int|
            from <= j < i ==> !defines(#[trigger] nodes[j], name);
    if i == from {
        lemma_reads_fail(st, nodes[from as int], name);
    } else if resolve(st, nodes[from as int]).failure is None {
        assert(!defines(nodes[from as int], name));
        lemma_still_pending(st, nodes[from as int], name);
        assert(reads_from(nodes, from + 1, name)) by {
            assert(from + 1 <= i < nodes.len() && reads(nodes[i], name));
        }
        lemma_reads_fail_from(resolve(st, nodes[from as int]).state, nodes, from + 1, name);
    }
}

/// A declaration inside a scope fails to resolve if its initializer reads the
/// declared name: if resolving the initializer comes to a reference to that
/// name in the declaration's own scope. Outside every scope nothing is
/// declared, so a global may be written in terms of an earlier global of the
/// same name.
pub proof fn law_self_reference_fails(st: SpecResolver, node: SpecNode)
    requires
        st.scopes.len() > 0,
        node is Declare,
        reads(*node->Declare_value, node->Declare_name.value),
    ensures
        resolve(st, node).failure is Some,
{
    let name = node->Declare_name.value;
    assert(pending_here(declare(st, name), name));
    lemma_reads_fail(declare(st, name), *node->Declare_value, name);
}

/// Resolving a program again, over the table that resolving it has filled,
/// changes nothing in the table: what resolution writes depends on the program
/// and the scopes alone, never on the table it writes to.
pub proof fn law_resolution_repeatable(
    st: SpecResolver,
    program: Seq<SpecNode>,
    table: Map<usize, usize>,
)
    ensures
        ({
            let writes = resolve_from(st, program, 0).writes;
            let once = table.union_prefer_right(writes);
            once.union_prefer_right(writes) == once
        }),
{
    let writes = resolve_from(st, program, 0).writes;
    let once = table.union_prefer_right(writes);
    assert(once.union_prefer_right(writes) =~= once);
}

} // verus!
