use std::collections::HashMap;

use neptune::ast::Node;
use neptune::ast::Literal;
use neptune::error::Error;
use neptune::resolver::Resolver;
use neptune::token::{Token, TokenType};

fn name(text: &str, line: usize, column: usize) -> Token {
    Token { _type: TokenType::Name(text.to_string()), value: text.to_string(), line, column }
}

fn number(id: usize, value: f64) -> Node {
    Node::Literal { id, value: Literal::Number(value.to_bits()) }
}

fn variable(id: usize, text: &str) -> Node {
    Node::Variable { id, name: name(text, 1, 1) }
}

fn declare(id: usize, text: &str, value: Node) -> Node {
    Node::Declare { id, name: name(text, 1, 5), value: Box::new(value) }
}

#[test]
fn global_reference_gets_no_entry() {
    let program = vec![declare(1, "x", number(2, 1.0)), variable(3, "x")];
    let mut table = HashMap::new();
    let result = Resolver::new().resolve_block(&mut table, &program);
    assert!(result.is_ok());
    assert!(table.is_empty());
}

#[test]
fn local_reference_gets_its_distance() {
    // { let x = 1; { x; } x; }
    let inner = Node::Block(vec![variable(3, "x")]);
    let program = vec![Node::Block(vec![declare(1, "x", number(2, 1.0)), inner, variable(4, "x")])];
    let mut table = HashMap::new();
    let result = Resolver::new().resolve_block(&mut table, &program);
    assert!(result.is_ok());
    assert_eq!(table.get(&3), Some(&1));
    assert_eq!(table.get(&4), Some(&0));
    assert_eq!(table.len(), 2);
}

#[test]
fn reading_a_name_in_its_own_initializer_is_a_syntax_error() {
    // { let x = x; }
    let program = vec![Node::Block(vec![declare(1, "x", Node::Variable { id: 2, name: name("x", 3, 9) })])];
    let mut table = HashMap::new();
    match Resolver::new().resolve_block(&mut table, &program) {
        Err(Error::Syntax(message)) => {
            assert_eq!(message, "'x' cannot be read in its own declaration. [3:9]");
        }
        _ => panic!("expected a syntax error"),
    }
}

#[test]
fn a_return_outside_a_function_is_a_syntax_error() {
    let program = vec![Node::Return { id: 2, value: Box::new(number(1, 1.0)) }];
    let mut table = HashMap::new();
    match Resolver::new().resolve_block(&mut table, &program) {
        Err(Error::Syntax(message)) => {
            assert_eq!(message, "Cannot return outside of a function declaration.");
        }
        _ => panic!("expected a syntax error"),
    }
}

#[test]
fn a_return_inside_a_function_resolves() {
    // fn f(a) { return a; } and a return in a block inside it
    let body = Node::Block(vec![
        Node::Return { id: 2, value: Box::new(variable(1, "a")) },
        Node::Block(vec![Node::Return { id: 4, value: Box::new(variable(3, "f")) }]),
    ]);
    let program = vec![Node::Block(vec![Node::DeclareFn {
        id: 5,
        name: name("f", 1, 4),
        args: vec![name("a", 1, 6)],
        body: Box::new(body),
    }])];
    let mut table = HashMap::new();
    assert!(Resolver::new().resolve_block(&mut table, &program).is_ok());
    // `a` is a parameter: one scope above the body's block.
    assert_eq!(table.get(&1), Some(&1));
    // `f` is declared in the outer block: behind the inner block, the body and the parameters.
    assert_eq!(table.get(&3), Some(&3));
    // The declaration itself gets no entry.
    assert_eq!(table.get(&5), None);
    assert_eq!(table.len(), 2);
}

#[test]
fn the_innermost_declaration_wins() {
    // { let x = 1; { let x = 2; x; } x = 3; }
    let inner = Node::Block(vec![declare(3, "x", number(2, 2.0)), variable(4, "x")]);
    let write = Node::Assign { id: 6, name: name("x", 1, 1), value: Box::new(number(5, 3.0)) };
    let program = vec![Node::Block(vec![declare(1, "x", number(0, 1.0)), inner, write])];
    let mut table = HashMap::new();
    assert!(Resolver::new().resolve_block(&mut table, &program).is_ok());
    assert_eq!(table.get(&4), Some(&0));
    assert_eq!(table.get(&6), Some(&0));
}

#[test]
fn a_global_may_be_declared_by_its_own_earlier_value() {
    // let x = x; outside every scope declares nothing, so nothing is refused.
    let program = vec![declare(1, "x", variable(2, "x"))];
    let mut table = HashMap::new();
    assert!(Resolver::new().resolve_block(&mut table, &program).is_ok());
    assert!(table.is_empty());
}

#[test]
fn a_name_read_behind_its_declaration_in_the_initializer_of_another_is_fine() {
    // { let a = 1; let b = a; }
    let program = vec![Node::Block(vec![declare(1, "a", number(0, 1.0)), declare(3, "b", variable(2, "a"))])];
    let mut table = HashMap::new();
    assert!(Resolver::new().resolve_block(&mut table, &program).is_ok());
    assert_eq!(table.get(&2), Some(&0));
}

#[test]
fn resolving_stops_at_the_first_error_and_keeps_what_it_wrote() {
    // { let a = 1; a; let b = b; a; }
    let program = vec![Node::Block(vec![
        declare(1, "a", number(0, 1.0)),
        variable(2, "a"),
        declare(4, "b", variable(3, "b")),
        variable(5, "a"),
    ])];
    let mut table = HashMap::new();
    table.insert(99, 7);
    assert!(Resolver::new().resolve_block(&mut table, &program).is_err());
    assert_eq!(table.get(&2), Some(&0));
    assert_eq!(table.get(&5), None);
    assert_eq!(table.get(&99), Some(&7));
}

#[test]
fn a_single_node_is_resolved_in_the_scopes_that_stand() {
    let mut resolver = Resolver::new();
    let mut table = HashMap::new();
    assert!(resolver.resolve(&mut table, &Node::Block(vec![declare(1, "x", number(0, 1.0)), variable(2, "x")])).is_ok());
    assert!(resolver.resolve(&mut table, &variable(3, "x")).is_ok());
    assert_eq!(table.get(&2), Some(&0));
    assert_eq!(table.get(&3), None);
}
