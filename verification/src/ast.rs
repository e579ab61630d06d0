//! The abstract syntax tree that the resolver and the evaluator walk.

use vstd::prelude::*;
use crate::token::{Token, SpecToken, token_views, clone_tokens};

verus! {

/// A literal value as written in the source.
///
/// A number is carried as the bit pattern of an IEEE 754 double.
pub enum Literal {
    Number(u64),
    Bool(bool),
    String(String),
    Nothing,
}

/// The mathematical value of a [`Literal`].
pub enum SpecLiteral {
    Number(u64),
    Bool(bool),
    String(Seq<char>),
    Nothing,
}

impl View for Literal {
    type V = SpecLiteral;

    open spec fn view(&self) -> SpecLiteral {
        match self {
            Literal::Number(bits) => SpecLiteral::Number(*bits),
            Literal::Bool(b) => SpecLiteral::Bool(*b),
            Literal::String(text) => SpecLiteral::String(text@),
            Literal::Nothing => SpecLiteral::Nothing,
        }
    }
}

impl Clone for Literal {
    fn clone(&self) -> (copy: Self)
        ensures
            copy@ == self@,
    {
        match self {
            Literal::Number(bits) => Literal::Number(*bits),
            Literal::Bool(b) => Literal::Bool(*b),
            Literal::String(text) => Literal::String(text.clone()),
            Literal::Nothing => Literal::Nothing,
        }
    }
}

/// A node of the syntax tree. Every node but a block carries the identifier that
/// the parser gave it; the resolver's distances are keyed by it.
#[allow(inconsistent_fields)]
pub enum Node {
    BinaryOperator { id: usize, left: Box<Node>, operator: Token, right: Box<Node> },
    Literal { id: usize, value: Literal },
    UnaryOperator { id: usize, operator: Token, child: Box<Node> },
    Logical { id: usize, left: Box<Node>, operator: Token, right: Box<Node> },
    Declare { id: usize, name: Token, value: Box<Node> },
    Assign { id: usize, name: Token, value: Box<Node> },
    If { id: usize, condition: Box<Node>, body: Box<Node>, else_block: Option<Box<Node>> },
    While { id: usize, condition: Box<Node>, body: Box<Node> },
    Variable { id: usize, name: Token },
    DeclareFn { id: usize, name: Token, args: Vec<Token>, body: Box<Node> },
    FnCall { id: usize, name: Box<Node>, args: Vec<Node> },
    Return { id: usize, value: Box<Node> },
    Block(Vec<Node>),
}

/// The mathematical value of a [`Node`]: a tree over sequences.
#[allow(inconsistent_fields)]
pub enum SpecNode {
    BinaryOperator { id: usize, left: Box<SpecNode>, operator: SpecToken, right: Box<SpecNode> },
    Literal { id: usize, value: SpecLiteral },
    UnaryOperator { id: usize, operator: SpecToken, child: Box<SpecNode> },
    Logical { id: usize, left: Box<SpecNode>, operator: SpecToken, right: Box<SpecNode> },
    Declare { id: usize, name: SpecToken, value: Box<SpecNode> },
    Assign { id: usize, name: SpecToken, value: Box<SpecNode> },
    If {
        id: usize,
        condition: Box<SpecNode>,
        body: Box<SpecNode>,
        else_block: Option<Box<SpecNode>>,
    },
    While { id: usize, condition: Box<SpecNode>, body: Box<SpecNode> },
    Variable { id: usize, name: SpecToken },
    DeclareFn { id: usize, name: SpecToken, args: Seq<SpecToken>, body: Box<SpecNode> },
    FnCall { id: usize, name: Box<SpecNode>, args: Seq<SpecNode> },
    Return { id: usize, value: Box<SpecNode> },
    Block(Seq<SpecNode>),
}

/// The tree that a node stands for.
pub open spec fn node_view(node: Node) -> SpecNode
    decreases node,
{
    match node {
        Node::BinaryOperator { id, left, operator, right } => SpecNode::BinaryOperator {
            id,
            left: Box::new(node_view(*left)),
            operator: operator@,
            right: Box::new(node_view(*right)),
        },
        Node::Literal { id, value } => SpecNode::Literal { id, value: value@ },
        Node::UnaryOperator { id, operator, child } => SpecNode::UnaryOperator {
            id,
            operator: operator@,
            child: Box::new(node_view(*child)),
        },
        Node::Logical { id, left, operator, right } => SpecNode::Logical {
            id,
            left: Box::new(node_view(*left)),
            operator: operator@,
            right: Box::new(node_view(*right)),
        },
        Node::Declare { id, name, value } => SpecNode::Declare {
            id,
            name: name@,
            value: Box::new(node_view(*value)),
        },
        Node::Assign { id, name, value } => SpecNode::Assign {
            id,
            name: name@,
            value: Box::new(node_view(*value)),
        },
        Node::If { id, condition, body, else_block } => SpecNode::If {
            id,
            condition: Box::new(node_view(*condition)),
            body: Box::new(node_view(*body)),
            else_block: match else_block {
                Some(block) => Some(Box::new(node_view(*block))),
                None => None,
            },
        },
        Node::While { id, condition, body } => SpecNode::While {
            id,
            condition: Box::new(node_view(*condition)),
            body: Box::new(node_view(*body)),
        },
        Node::Variable { id, name } => SpecNode::Variable { id, name: name@ },
        Node::DeclareFn { id, name, args, body } => SpecNode::DeclareFn {
            id,
            name: name@,
            args: token_views(args@),
            body: Box::new(node_view(*body)),
        },
        Node::FnCall { id, name, args } => SpecNode::FnCall {
            id,
            name: Box::new(node_view(*name)),
            args: node_views(args@),
        },
        Node::Return { id, value } => SpecNode::Return { id, value: Box::new(node_view(*value)) },
        Node::Block(nodes) => SpecNode::Block(node_views(nodes@)),
    }
}

impl View for Node {
    type V = SpecNode;

    open spec fn view(&self) -> SpecNode {
        node_view(*self)
    }
}

/// The trees that a sequence of nodes stands for, in order.
pub open spec fn node_views(nodes: Seq<Node>) -> Seq<SpecNode>
    decreases nodes,
{
    Seq::new(
        nodes.len(),
        |i: int|
            if 0 <= i < nodes.len() {
                node_view(nodes[i])
            } else {
                SpecNode::Block(Seq::empty())
            },
    )
}

/// The views of a list grow with the list.
pub proof fn lemma_node_views_push(nodes: Seq<Node>, node: Node)
    ensures
        node_views(nodes.push(node)) == node_views(nodes).push(node@),
{
    assert(node_views(nodes.push(node)) =~= node_views(nodes).push(node@));
}

/// No nodes have no views.
pub proof fn lemma_node_views_empty()
    ensures
        node_views(Seq::<Node>::empty()) == Seq::<SpecNode>::empty(),
{
    assert(node_views(Seq::<Node>::empty()) =~= Seq::<SpecNode>::empty());
}

/// Copies a list of nodes, each with its whole subtree.
pub fn clone_nodes(nodes: &Vec<Node>) -> (copy: Vec<Node>)
    ensures
        node_views(copy@) == node_views(nodes@),
    decreases nodes,
{
    let mut copy: Vec<Node> = Vec::new();
    let mut i: usize = 0;
    while i < nodes.len()
        invariant
            i <= nodes.len(),
            copy.len() == i,
            forall|j: int| 0 <= j < i ==> copy[j]@ == nodes[j]@,
        decreases nodes.len() - i,
    {
        copy.push(clone_node(&nodes[i]));
        i += 1;
    }
    assert(node_views(copy@) =~= node_views(nodes@));
    copy
}

/// Copies a node with its whole subtree.
pub fn clone_node(node: &Node) -> (copy: Node)
    ensures
        copy@ == node@,
    decreases node,
{
    match node {
        Node::BinaryOperator { id, left, operator, right } => Node::BinaryOperator {
            id: *id,
            left: Box::new(clone_node(left)),
            operator: operator.clone(),
            right: Box::new(clone_node(right)),
        },
        Node::Literal { id, value } => Node::Literal { id: *id, value: value.clone() },
        Node::UnaryOperator { id, operator, child } => Node::UnaryOperator {
            id: *id,
            operator: operator.clone(),
            child: Box::new(clone_node(child)),
        },
        Node::Logical { id, left, operator, right } => Node::Logical {
            id: *id,
            left: Box::new(clone_node(left)),
            operator: operator.clone(),
            right: Box::new(clone_node(right)),
        },
        Node::Declare { id, name, value } => Node::Declare {
            id: *id,
            name: name.clone(),
            value: Box::new(clone_node(value)),
        },
        Node::Assign { id, name, value } => Node::Assign {
            id: *id,
            name: name.clone(),
            value: Box::new(clone_node(value)),
        },
        Node::If { id, condition, body, else_block } => {
            let other = match else_block {
                Some(block) => Some(Box::new(clone_node(block))),
                None => None,
            };
            Node::If {
                id: *id,
                condition: Box::new(clone_node(condition)),
                body: Box::new(clone_node(body)),
                else_block: other,
            }
        },
        Node::While { id, condition, body } => Node::While {
            id: *id,
            condition: Box::new(clone_node(condition)),
            body: Box::new(clone_node(body)),
        },
        Node::Variable { id, name } => Node::Variable { id: *id, name: name.clone() },
        Node::DeclareFn { id, name, args, body } => Node::DeclareFn {
            id: *id,
            name: name.clone(),
            args: clone_tokens(args),
            body: Box::new(clone_node(body)),
        },
        Node::FnCall { id, name, args } => {
            let copy = Node::FnCall {
                id: *id,
                name: Box::new(clone_node(name)),
                args: clone_nodes(args),
            };
            copy
        },
        Node::Return { id, value } => Node::Return { id: *id, value: Box::new(clone_node(value)) },
        Node::Block(nodes) => {
            let copy = Node::Block(clone_nodes(nodes));
            copy
        },
    }
}

impl Clone for Node {
    fn clone(&self) -> (copy: Self)
        ensures
            copy@ == self@,
    {
        clone_node(self)
    }
}

} // verus!
