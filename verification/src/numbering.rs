//! The identifiers of a tree: what it means that they are given out in order,
//! and that no two nodes of such a tree share one.
//!
//! The resolver writes a distance under the identifier of a node and the
//! evaluator reads it there, so two nodes with one identifier would read each
//! other's distance. The parser gives identifiers out in order, each greater
//! than all before it, to a node behind the nodes below it.

use vstd::prelude::*;
use crate::ast::SpecNode;

verus! {

/// Whether the identifiers of a tree are all greater than `low` and grow in
/// the order in which the parser makes nodes: the nodes below a node from the
/// left to the right, then the node itself. If so, the greatest of them is
/// given, or `low` where the tree holds none.
pub open spec fn numbered(node: SpecNode, low: usize) -> Option<usize>
    decreases node, 0nat,
{
    match node {
        SpecNode::Literal { id, .. } => above(id, Some(low)),
        SpecNode::Variable { id, .. } => above(id, Some(low)),
        SpecNode::UnaryOperator { id, child, .. } => above(id, numbered(*child, low)),
        SpecNode::Declare { id, value, .. } => above(id, numbered(*value, low)),
        SpecNode::Assign { id, value, .. } => above(id, numbered(*value, low)),
        SpecNode::Return { id, value } => above(id, numbered(*value, low)),
        SpecNode::DeclareFn { id, body, .. } => above(id, numbered(*body, low)),
        SpecNode::BinaryOperator { id, left, right, .. } => above(
            id,
            match numbered(*left, low) {
                Some(high) => numbered(*right, high),
                None => None,
            },
        ),
        SpecNode::Logical { id, left, right, .. } => above(
            id,
            match numbered(*left, low) {
                Some(high) => numbered(*right, high),
                None => None,
            },
        ),
        SpecNode::While { id, condition, body } => above(
            id,
            match numbered(*condition, low) {
                Some(high) => numbered(*body, high),
                None => None,
            },
        ),
        SpecNode::If { id, condition, body, else_block } => {
            let both = match numbered(*condition, low) {
                Some(high) => numbered(*body, high),
                None => None,
            };
            match else_block {
                Some(other) => above(
                    id,
                    match both {
                        Some(high) => numbered(*other, high),
                        None => None,
                    },
                ),
                None => above(id, both),
            }
        },
        SpecNode::FnCall { id, name, args } => above(
            id,
            match numbered(*name, low) {
                Some(high) => numbered_all(args, high),
                None => None,
            },
        ),
        SpecNode::Block(nodes) => numbered_all(nodes, low),
    }
}

/// An identifier behind what came before it.
pub open spec fn above(id: usize, before: Option<usize>) -> Option<usize> {
    match before {
        Some(high) => if id > high {
            Some(id)
        } else {
            None
        },
        None => None,
    }
}

/// Whether the identifiers of a sequence of trees are all greater than `low`
/// and grow from each tree to the next, and in each tree in order.
pub open spec fn numbered_all(nodes: Seq<SpecNode>, low: usize) -> Option<usize>
    decreases nodes, 0nat,
{
    if nodes.len() == 0 {
        Some(low)
    } else {
        match numbered_all(nodes.drop_last(), low) {
            Some(high) => numbered(nodes.last(), high),
            None => None,
        }
    }
}

/// How many nodes of a tree carry an identifier.
pub open spec fn occurrences(node: SpecNode, id: usize) -> nat
    decreases node, 0nat,
{
    match node {
        SpecNode::Literal { id: own, .. } => one(own, id),
        SpecNode::Variable { id: own, .. } => one(own, id),
        SpecNode::UnaryOperator { id: own, child, .. } => one(own, id) + occurrences(*child, id),
        SpecNode::Declare { id: own, value, .. } => one(own, id) + occurrences(*value, id),
        SpecNode::Assign { id: own, value, .. } => one(own, id) + occurrences(*value, id),
        SpecNode::Return { id: own, value } => one(own, id) + occurrences(*value, id),
        SpecNode::DeclareFn { id: own, body, .. } => one(own, id) + occurrences(*body, id),
        SpecNode::BinaryOperator { id: own, left, right, .. } => one(own, id) + occurrences(
            *left,
            id,
        ) + occurrences(*right, id),
        SpecNode::Logical { id: own, left, right, .. } => one(own, id) + occurrences(*left, id)
            + occurrences(*right, id),
        SpecNode::While { id: own, condition, body } => one(own, id) + occurrences(*condition, id)
            + occurrences(*body, id),
        SpecNode::If { id: own, condition, body, else_block } => one(own, id) + occurrences(
            *condition,
            id,
        ) + occurrences(*body, id) + match else_block {
            Some(other) => occurrences(*other, id),
            None => 0,
        },
        SpecNode::FnCall { id: own, name, args } => one(own, id) + occurrences(*name, id)
            + occurrences_all(args, id),
        SpecNode::Block(nodes) => occurrences_all(nodes, id),
    }
}

/// One if two identifiers are the same, and zero if not.
pub open spec fn one(own: usize, id: usize) -> nat {
    if own == id {
        1
    } else {
        0
    }
}

/// How many nodes of a sequence of trees carry an identifier.
pub open spec fn occurrences_all(nodes: Seq<SpecNode>, id: usize) -> nat
    decreases nodes, 0nat,
{
    if nodes.len() == 0 {
        0
    } else {
        occurrences_all(nodes.drop_last(), id) + occurrences(nodes.last(), id)
    }
}

/// What numbering says of one identifier: at most one node carries it, and it
/// lies behind `low` and not behind the greatest if a node does.
pub open spec fn singled(count: nat, id: usize, low: usize, high: usize) -> bool {
    &&& low <= high
    &&& count <= 1
    &&& count == 1 ==> low < id <= high
}

/// In a tree whose identifiers are given out in order, no two nodes share an
/// identifier, and every identifier lies behind the bound from which they were
/// given out.
pub proof fn law_numbered_nodes_differ(node: SpecNode, low: usize, id: usize)
    requires
        numbered(node, low) is Some,
    ensures
        singled(occurrences(node, id), id, low, numbered(node, low)->Some_0),
    decreases node, 0nat,
{
    match node {
        SpecNode::Literal { .. } => {},
        SpecNode::Variable { .. } => {},
        SpecNode::UnaryOperator { child, .. } => {
            law_numbered_nodes_differ(*child, low, id);
        },
        SpecNode::Declare { value, .. } => {
            law_numbered_nodes_differ(*value, low, id);
        },
        SpecNode::Assign { value, .. } => {
            law_numbered_nodes_differ(*value, low, id);
        },
        SpecNode::Return { value, .. } => {
            law_numbered_nodes_differ(*value, low, id);
        },
        SpecNode::DeclareFn { body, .. } => {
            law_numbered_nodes_differ(*body, low, id);
        },
        SpecNode::BinaryOperator { left, right, .. } => {
            law_numbered_nodes_differ(*left, low, id);
            law_numbered_nodes_differ(*right, numbered(*left, low)->Some_0, id);
        },
        SpecNode::Logical { left, right, .. } => {
            law_numbered_nodes_differ(*left, low, id);
            law_numbered_nodes_differ(*right, numbered(*left, low)->Some_0, id);
        },
        SpecNode::While { condition, body, .. } => {
            law_numbered_nodes_differ(*condition, low, id);
            law_numbered_nodes_differ(*body, numbered(*condition, low)->Some_0, id);
        },
        SpecNode::If { condition, body, else_block, .. } => {
            law_numbered_nodes_differ(*condition, low, id);
            let first = numbered(*condition, low)->Some_0;
            law_numbered_nodes_differ(*body, first, id);
            match else_block {
                Some(other) => {
                    law_numbered_nodes_differ(*other, numbered(*body, first)->Some_0, id);
                },
                None => {},
            }
        },
        SpecNode::FnCall { name, args, .. } => {
            law_numbered_nodes_differ(*name, low, id);
            law_numbered_sequences_differ(args, numbered(*name, low)->Some_0, id);
        },
        SpecNode::Block(nodes) => {
            law_numbered_sequences_differ(nodes, low, id);
        },
    }
}

/// In a sequence of trees whose identifiers are given out in order, no two
/// nodes share an identifier.
pub proof fn law_numbered_sequences_differ(nodes: Seq<SpecNode>, low: usize, id: usize)
    requires
        numbered_all(nodes, low) is Some,
    ensures
        singled(occurrences_all(nodes, id), id, low, numbered_all(nodes, low)->Some_0),
    decreases nodes, 0nat,
{
    if nodes.len() > 0 {
        law_numbered_sequences_differ(nodes.drop_last(), low, id);
        law_numbered_nodes_differ(nodes.last(), numbered_all(nodes.drop_last(), low)->Some_0, id);
    }
}

/// What is numbered behind a bound is numbered behind every lower bound.
pub proof fn lemma_numbered_lower(node: SpecNode, low: usize, lower: usize)
    requires
        numbered(node, low) is Some,
        lower <= low,
    ensures
        numbered(node, lower) is Some,
        lower <= numbered(node, lower)->Some_0 <= numbered(node, low)->Some_0,
    decreases node, 0nat,
{
    match node {
        SpecNode::Literal { .. } => {},
        SpecNode::Variable { .. } => {},
        SpecNode::UnaryOperator { child, .. } => {
            lemma_numbered_lower(*child, low, lower);
        },
        SpecNode::Declare { value, .. } => {
            lemma_numbered_lower(*value, low, lower);
        },
        SpecNode::Assign { value, .. } => {
            lemma_numbered_lower(*value, low, lower);
        },
        SpecNode::Return { value, .. } => {
            lemma_numbered_lower(*value, low, lower);
        },
        SpecNode::DeclareFn { body, .. } => {
            lemma_numbered_lower(*body, low, lower);
        },
        SpecNode::BinaryOperator { left, right, .. } => {
            lemma_numbered_lower(*left, low, lower);
            lemma_numbered_lower(*right, numbered(*left, low)->Some_0, numbered(*left, lower)->Some_0);
        },
        SpecNode::Logical { left, right, .. } => {
            lemma_numbered_lower(*left, low, lower);
            lemma_numbered_lower(*right, numbered(*left, low)->Some_0, numbered(*left, lower)->Some_0);
        },
        SpecNode::While { condition, body, .. } => {
            lemma_numbered_lower(*condition, low, lower);
            lemma_numbered_lower(
                *body,
                numbered(*condition, low)->Some_0,
                numbered(*condition, lower)->Some_0,
            );
        },
        SpecNode::If { condition, body, else_block, .. } => {
            lemma_numbered_lower(*condition, low, lower);
            let first = numbered(*condition, low)->Some_0;
            let first_lower = numbered(*condition, lower)->Some_0;
            lemma_numbered_lower(*body, first, first_lower);
            match else_block {
                Some(other) => {
                    lemma_numbered_lower(
                        *other,
                        numbered(*body, first)->Some_0,
                        numbered(*body, first_lower)->Some_0,
                    );
                },
                None => {},
            }
        },
        SpecNode::FnCall { name, args, .. } => {
            lemma_numbered_lower(*name, low, lower);
            lemma_numbered_all_lower(
                args,
                numbered(*name, low)->Some_0,
                numbered(*name, lower)->Some_0,
            );
        },
        SpecNode::Block(nodes) => {
            lemma_numbered_all_lower(nodes, low, lower);
        },
    }
}

/// What is numbered behind a bound is numbered behind every lower bound.
pub proof fn lemma_numbered_all_lower(nodes: Seq<SpecNode>, low: usize, lower: usize)
    requires
        numbered_all(nodes, low) is Some,
        lower <= low,
    ensures
        numbered_all(nodes, lower) is Some,
        lower <= numbered_all(nodes, lower)->Some_0 <= numbered_all(nodes, low)->Some_0,
    decreases nodes, 0nat,
{
    if nodes.len() > 0 {
        lemma_numbered_all_lower(nodes.drop_last(), low, lower);
        lemma_numbered_lower(
            nodes.last(),
            numbered_all(nodes.drop_last(), low)->Some_0,
            numbered_all(nodes.drop_last(), lower)->Some_0,
        );
    }
}

/// A sequence that is numbered stays so with one more tree numbered behind
/// it.
pub proof fn lemma_numbered_push(nodes: Seq<SpecNode>, node: SpecNode, low: usize)
    ensures
        numbered_all(nodes.push(node), low) == match numbered_all(nodes, low) {
            Some(high) => numbered(node, high),
            None => None,
        },
        numbered_all(Seq::<SpecNode>::empty(), low) == Some(low),
{
    assert(nodes.push(node).drop_last() =~= nodes);
}

} // verus!
