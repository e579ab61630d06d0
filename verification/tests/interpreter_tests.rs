use std::collections::HashMap;

use neptune::ast::{Literal, Node};
use neptune::error::Error;
use neptune::function::Function;
use neptune::interpreter::{Interpreter, Object};
use neptune::machine::{Action, Operation, Reply, Request, Task, Work};
use neptune::resolver::Resolver;
use neptune::token::{Token, TokenType};

// ---------------------------------------------------------------------------
// A host for the tests: numbers are doubles, `print` writes into a list, and
// `effect` is a native function that counts its calls.
// ---------------------------------------------------------------------------
struct Host {
    printed: Vec<String>,
    effects: usize,
    requests: usize,
}

fn show(value: &Object) -> String {
    match value {
        Object::Number(bits) => value.display(&f64::from_bits(*bits).to_string()),
        other => other.display(&String::new()),
    }
}

fn answer(host: &mut Host, request: Request) -> Reply {
    host.requests += 1;
    match request {
        Request::Arithmetic { operation, left, right } => {
            let (l, r) = (f64::from_bits(left), f64::from_bits(right));
            Reply::Value(match operation {
                Operation::Add => Object::Number((l + r).to_bits()),
                Operation::Subtract => Object::Number((l - r).to_bits()),
                Operation::Multiply => Object::Number((l * r).to_bits()),
                Operation::Divide => Object::Number((l / r).to_bits()),
                Operation::Greater => Object::Bool(l > r),
                Operation::Less => Object::Bool(l < r),
                Operation::GreaterEqual => Object::Bool(l >= r),
                Operation::LessEqual => Object::Bool(l <= r),
                Operation::Equal => Object::Bool(l == r),
                Operation::NotEqual => Object::Bool(l != r),
            })
        }
        Request::Negate { value } => Reply::Value(Object::Number((-f64::from_bits(value)).to_bits())),
        Request::Count { value } => Reply::Count(f64::from_bits(value) as usize),
        Request::Display { value } => Reply::Text(f64::from_bits(value).to_string()),
        Request::Native { name, args } => match name.as_str() {
            "print" => {
                host.printed.push(show(&args[0]));
                Reply::Value(Object::Nothing)
            }
            "effect" => {
                host.effects += 1;
                Reply::Value(Object::Bool(true))
            }
            "broken" => Reply::Failure("the native function failed".to_string()),
            _ => Reply::Failure(format!("no native function '{}'", name)),
        },
    }
}

fn new_host() -> Host {
    Host { printed: vec![], effects: 0, requests: 0 }
}

fn drive(interpreter: &mut Interpreter, host: &mut Host) -> Result<Object, Error> {
    loop {
        match interpreter.advance(64) {
            Action::Continue => {}
            Action::Request(request) => {
                let reply = answer(host, request);
                interpreter.resume(reply);
            }
            Action::Finished(result) => return result,
        }
    }
}

/// Resolves and runs a program on a new interpreter that also knows `effect`
/// and `broken`.
fn execute(program: &Vec<Node>, host: &mut Host) -> (Interpreter, Result<Object, Error>) {
    let mut interpreter = Interpreter::new();
    for (name, arity) in [("effect", 0usize), ("broken", 0usize)] {
        interpreter.globals.assign(
            name.to_string(),
            Object::Function(Function::Native { arg_len: arity, name: name.to_string() }),
        );
    }
    Resolver::new().resolve_block(&mut interpreter.depths, program).ok().expect("resolves");
    interpreter.run(program);
    let result = drive(&mut interpreter, host);
    (interpreter, result)
}

// ---------------------------------------------------------------------------
// Builders
// ---------------------------------------------------------------------------
fn token(kind: TokenType, text: &str) -> Token {
    Token { _type: kind, value: text.to_string(), line: 1, column: 1 }
}

fn at(kind: TokenType, text: &str, line: usize, column: usize) -> Token {
    Token { _type: kind, value: text.to_string(), line, column }
}

fn name(text: &str) -> Token {
    token(TokenType::Name(text.to_string()), text)
}

struct Ids(usize);

impl Ids {
    fn next(&mut self) -> usize {
        self.0 += 1;
        self.0
    }
}

fn num(ids: &mut Ids, value: f64) -> Node {
    Node::Literal { id: ids.next(), value: Literal::Number(value.to_bits()) }
}

fn text(ids: &mut Ids, value: &str) -> Node {
    Node::Literal { id: ids.next(), value: Literal::String(value.to_string()) }
}

fn boolean(ids: &mut Ids, value: bool) -> Node {
    Node::Literal { id: ids.next(), value: Literal::Bool(value) }
}

fn nothing(ids: &mut Ids) -> Node {
    Node::Literal { id: ids.next(), value: Literal::Nothing }
}

fn var(ids: &mut Ids, text: &str) -> Node {
    Node::Variable { id: ids.next(), name: name(text) }
}

fn binary(ids: &mut Ids, left: Node, kind: TokenType, symbol: &str, right: Node) -> Node {
    Node::BinaryOperator {
        id: ids.next(),
        left: Box::new(left),
        operator: at(kind, symbol, 4, 7),
        right: Box::new(right),
    }
}

fn logical(ids: &mut Ids, left: Node, kind: TokenType, symbol: &str, right: Node) -> Node {
    Node::Logical { id: ids.next(), left: Box::new(left), operator: token(kind, symbol), right: Box::new(right) }
}

fn unary(ids: &mut Ids, kind: TokenType, symbol: &str, child: Node) -> Node {
    Node::UnaryOperator { id: ids.next(), operator: at(kind, symbol, 2, 3), child: Box::new(child) }
}

fn declare(ids: &mut Ids, text: &str, value: Node) -> Node {
    Node::Declare { id: ids.next(), name: name(text), value: Box::new(value) }
}

fn assign(ids: &mut Ids, text: &str, value: Node) -> Node {
    Node::Assign { id: ids.next(), name: name(text), value: Box::new(value) }
}

fn call(ids: &mut Ids, callee: Node, args: Vec<Node>) -> Node {
    Node::FnCall { id: ids.next(), name: Box::new(callee), args }
}

fn print(ids: &mut Ids, value: Node) -> Node {
    let callee = var(ids, "print");
    call(ids, callee, vec![value])
}

fn function(ids: &mut Ids, text: &str, params: &[&str], body: Vec<Node>) -> Node {
    Node::DeclareFn {
        id: ids.next(),
        name: at(TokenType::Name(text.to_string()), text, 7, 4),
        args: params.iter().map(|p| name(p)).collect(),
        body: Box::new(Node::Block(body)),
    }
}

fn ret(ids: &mut Ids, value: Node) -> Node {
    Node::Return { id: ids.next(), value: Box::new(value) }
}

fn if_then(ids: &mut Ids, condition: Node, body: Node, other: Option<Node>) -> Node {
    Node::If {
        id: ids.next(),
        condition: Box::new(condition),
        body: Box::new(body),
        else_block: other.map(Box::new),
    }
}

fn while_do(ids: &mut Ids, condition: Node, body: Node) -> Node {
    Node::While { id: ids.next(), condition: Box::new(condition), body: Box::new(body) }
}

fn number_of(result: Result<Object, Error>) -> f64 {
    match result {
        Ok(Object::Number(bits)) => f64::from_bits(bits),
        Ok(other) => panic!("expected a number, got {}", show(&other)),
        Err(Error::Runtime(message)) => panic!("runtime error: {}", message),
        Err(Error::Syntax(message)) => panic!("syntax error: {}", message),
    }
}

fn runtime_message(result: Result<Object, Error>) -> String {
    match result {
        Err(Error::Runtime(message)) => message,
        Ok(value) => panic!("expected a runtime error, got {}", show(&value)),
        Err(Error::Syntax(message)) => panic!("syntax error: {}", message),
    }
}

// ---------------------------------------------------------------------------
// Tests
// ---------------------------------------------------------------------------
#[test]
fn a_new_interpreter_knows_print_and_time() {
    let interpreter = Interpreter::new();
    match interpreter.globals.get("print".to_string()) {
        Some(Object::Function(Function::Native { arg_len, name })) => {
            assert_eq!(*arg_len, 1);
            assert_eq!(name, "print");
        }
        _ => panic!("print is missing"),
    }
    match interpreter.globals.get("time".to_string()) {
        Some(Object::Function(Function::Native { arg_len, name })) => {
            assert_eq!(*arg_len, 0);
            assert_eq!(name, "time");
        }
        _ => panic!("time is missing"),
    }
    assert!(interpreter.environments.is_empty());
    assert!(interpreter.tasks.is_empty());
    assert!(matches!(interpreter.work, Work::Finished(Ok(Object::Nothing))));
}

#[test]
fn truthiness() {
    let interpreter = Interpreter::new();
    assert!(interpreter.is_truthy(&Object::Bool(true)));
    assert!(!interpreter.is_truthy(&Object::Bool(false)));
    assert!(!interpreter.is_truthy(&Object::Nothing));
    assert!(interpreter.is_truthy(&Object::Number(0f64.to_bits())));
    assert!(interpreter.is_truthy(&Object::String(String::new())));
    assert!(interpreter.is_truthy(&Object::Function(Function::Native { arg_len: 0, name: "f".to_string() })));
}

#[test]
fn one_plus_one_is_two_and_displays_without_fraction() {
    let mut ids = Ids(0);
    let one = num(&mut ids, 1.0);
    let other = num(&mut ids, 1.0);
    let program = vec![binary(&mut ids, one, TokenType::Plus, "+", other)];
    let mut host = new_host();
    let (_, result) = execute(&program, &mut host);
    let value = result.ok().expect("a value");
    assert!(matches!(value, Object::Number(bits) if f64::from_bits(bits) == 2.0));
    assert_eq!(value.display(&"2.0".to_string()), "2");
    assert_eq!(value.display(&"2.5".to_string()), "2.5");
    assert_eq!(show(&value), "2");
}

#[test]
fn arithmetic_and_comparison_on_numbers() {
    let cases: Vec<(TokenType, &str, f64, f64, Object)> = vec![
        (TokenType::Minus, "-", 5.0, 3.0, Object::Number(2f64.to_bits())),
        (TokenType::Multiply, "*", 4.0, 2.5, Object::Number(10f64.to_bits())),
        (TokenType::Divide, "/", 1.0, 4.0, Object::Number(0.25f64.to_bits())),
        (TokenType::Divide, "/", 1.0, 0.0, Object::Number(f64::INFINITY.to_bits())),
        (TokenType::Greater, ">", 2.0, 1.0, Object::Bool(true)),
        (TokenType::Less, "<", 2.0, 1.0, Object::Bool(false)),
        (TokenType::GreraterEqual, ">=", 2.0, 2.0, Object::Bool(true)),
        (TokenType::LessEqual, "<=", 3.0, 2.0, Object::Bool(false)),
        (TokenType::Equal, "==", 3.0, 3.0, Object::Bool(true)),
        (TokenType::NotEqual, "!=", 3.0, 3.0, Object::Bool(false)),
    ];
    for (kind, symbol, l, r, expected) in cases {
        let mut ids = Ids(0);
        let left = num(&mut ids, l);
        let right = num(&mut ids, r);
        let program = vec![binary(&mut ids, left, kind, symbol, right)];
        let mut host = new_host();
        let (_, result) = execute(&program, &mut host);
        match (result.ok().expect("a value"), expected) {
            (Object::Number(a), Object::Number(b)) => assert_eq!(a, b, "{}", symbol),
            (Object::Bool(a), Object::Bool(b)) => assert_eq!(a, b, "{}", symbol),
            _ => panic!("wrong kind of value for {}", symbol),
        }
        assert_eq!(host.requests, 1);
    }
}

#[test]
fn division_of_zero_by_zero_is_not_a_number() {
    let mut ids = Ids(0);
    let left = num(&mut ids, 0.0);
    let right = num(&mut ids, 0.0);
    let program = vec![binary(&mut ids, left, TokenType::Divide, "/", right)];
    let mut host = new_host();
    let (_, result) = execute(&program, &mut host);
    assert!(number_of(result).is_nan());
}

#[test]
fn text_is_joined_by_plus() {
    let mut ids = Ids(0);
    let left = text(&mut ids, "ab");
    let right = text(&mut ids, "cd");
    let program = vec![binary(&mut ids, left, TokenType::Plus, "+", right)];
    let mut host = new_host();
    let (_, result) = execute(&program, &mut host);
    assert!(matches!(result, Ok(Object::String(s)) if s == "abcd"));
    assert_eq!(host.requests, 0);
}

#[test]
fn text_times_number_repeats_the_text() {
    let mut ids = Ids(0);
    let left = text(&mut ids, "ab");
    let right = num(&mut ids, 3.0);
    let program = vec![binary(&mut ids, left, TokenType::Multiply, "*", right)];
    let mut host = new_host();
    let (interpreter, result) = execute(&program, &mut host);
    assert!(matches!(result, Ok(Object::String(s)) if s == "ababab"));
    assert!(interpreter.tasks.is_empty());
}

#[test]
fn repetition_count_is_cut_to_a_whole_number() {
    let mut ids = Ids(0);
    let left = text(&mut ids, "xy");
    let right = num(&mut ids, 2.9);
    let program = vec![binary(&mut ids, left, TokenType::Multiply, "*", right)];
    let mut host = new_host();
    let (_, result) = execute(&program, &mut host);
    assert!(matches!(result, Ok(Object::String(s)) if s == "xyxy"));
}

#[test]
fn number_times_text_is_a_type_error() {
    let mut ids = Ids(0);
    let left = num(&mut ids, 3.0);
    let right = text(&mut ids, "ab");
    let program = vec![binary(&mut ids, left, TokenType::Multiply, "*", right)];
    let mut host = new_host();
    let (_, result) = execute(&program, &mut host);
    assert_eq!(
        runtime_message(result),
        "Left and right values must both be numbers for multiplication ('*'). [4:7]"
    );
    assert_eq!(host.requests, 0);
}

#[test]
fn operand_errors_name_the_operator_and_its_position() {
    let cases: Vec<(TokenType, &str, &str)> = vec![
        (TokenType::Plus, "+", "Left and right values must both be numbers or strings for addition ('+'). [4:7]"),
        (TokenType::Minus, "-", "Left and right values must both be numbers for subtraction ('-'). [4:7]"),
        (TokenType::Divide, "/", "Left and right values must both be numbers for division ('/'). [4:7]"),
        (TokenType::Less, "<", "Left and right values must both be numbers for comparison ('<'). [4:7]"),
        (TokenType::Equal, "==", "Left and right values must both be numbers for comparison ('=='). [4:7]"),
    ];
    for (kind, symbol, expected) in cases {
        let mut ids = Ids(0);
        let left = boolean(&mut ids, true);
        let right = num(&mut ids, 1.0);
        let program = vec![binary(&mut ids, left, kind, symbol, right)];
        let mut host = new_host();
        let (_, result) = execute(&program, &mut host);
        assert_eq!(runtime_message(result), expected);
    }
}

#[test]
fn a_token_that_is_no_operator_is_an_error() {
    let mut ids = Ids(0);
    let left = num(&mut ids, 1.0);
    let right = num(&mut ids, 1.0);
    let program = vec![binary(&mut ids, left, TokenType::Comma, ",", right)];
    let mut host = new_host();
    let (_, result) = execute(&program, &mut host);
    assert_eq!(runtime_message(result), "Operator not implemented: ',' [4:7]");
}

#[test]
fn negation_and_not() {
    let mut ids = Ids(0);
    let operand = num(&mut ids, 4.0);
    let program = vec![unary(&mut ids, TokenType::Minus, "-", operand)];
    let mut host = new_host();
    let (_, result) = execute(&program, &mut host);
    assert_eq!(number_of(result), -4.0);

    let mut ids = Ids(0);
    let operand = nothing(&mut ids);
    let program = vec![unary(&mut ids, TokenType::Not, "!", operand)];
    let (_, result) = execute(&program, &mut new_host());
    assert!(matches!(result, Ok(Object::Bool(true))));

    let mut ids = Ids(0);
    let operand = text(&mut ids, "a");
    let program = vec![unary(&mut ids, TokenType::Minus, "-", operand)];
    let (_, result) = execute(&program, &mut new_host());
    assert_eq!(runtime_message(result), "Value must be number when negating (-). [2:3]");

    let mut ids = Ids(0);
    let operand = num(&mut ids, 1.0);
    let program = vec![unary(&mut ids, TokenType::Plus, "+", operand)];
    let (_, result) = execute(&program, &mut new_host());
    assert_eq!(runtime_message(result), "Unrecognized unary operator: '+' [2:3]");
}

#[test]
fn and_with_false_on_the_left_never_calls_the_right() {
    let mut ids = Ids(0);
    let left = boolean(&mut ids, false);
    let callee = var(&mut ids, "effect");
    let right = call(&mut ids, callee, vec![]);
    let program = vec![logical(&mut ids, left, TokenType::And, "and", right)];
    let mut host = new_host();
    let (_, result) = execute(&program, &mut host);
    assert!(matches!(result, Ok(Object::Bool(false))));
    assert_eq!(host.effects, 0);
    assert_eq!(host.requests, 0);
}

#[test]
fn or_with_true_on_the_left_never_calls_the_right() {
    let mut ids = Ids(0);
    let left = boolean(&mut ids, true);
    let callee = var(&mut ids, "effect");
    let right = call(&mut ids, callee, vec![]);
    let program = vec![logical(&mut ids, left, TokenType::Or, "or", right)];
    let mut host = new_host();
    let (_, result) = execute(&program, &mut host);
    assert!(matches!(result, Ok(Object::Bool(true))));
    assert_eq!(host.effects, 0);
}

#[test]
fn and_with_true_on_the_left_gives_the_right() {
    let mut ids = Ids(0);
    let left = boolean(&mut ids, true);
    let callee = var(&mut ids, "effect");
    let right = call(&mut ids, callee, vec![]);
    let program = vec![logical(&mut ids, left, TokenType::And, "and", right)];
    let mut host = new_host();
    let (_, result) = execute(&program, &mut host);
    assert!(matches!(result, Ok(Object::Bool(true))));
    assert_eq!(host.effects, 1);

    let mut ids = Ids(0);
    let left = nothing(&mut ids);
    let right = num(&mut ids, 7.0);
    let program = vec![logical(&mut ids, left, TokenType::Or, "or", right)];
    let (_, result) = execute(&program, &mut new_host());
    assert_eq!(number_of(result), 7.0);
}

#[test]
fn shadowing_in_a_block_leaves_the_outer_binding() {
    // let x = 1; { let x = 2; print(x); } print(x);
    let mut ids = Ids(0);
    let one = num(&mut ids, 1.0);
    let outer = declare(&mut ids, "x", one);
    let two = num(&mut ids, 2.0);
    let inner = declare(&mut ids, "x", two);
    let shown = var(&mut ids, "x");
    let print_inner = print(&mut ids, shown);
    let block = Node::Block(vec![inner, print_inner]);
    let shown = var(&mut ids, "x");
    let print_outer = print(&mut ids, shown);
    let program = vec![outer, block, print_outer];
    let mut host = new_host();
    let (interpreter, result) = execute(&program, &mut host);
    assert!(result.is_ok());
    assert_eq!(host.printed, vec!["2".to_string(), "1".to_string()]);
    assert!(matches!(
        interpreter.globals.get("x".to_string()),
        Some(Object::Number(bits)) if f64::from_bits(*bits) == 1.0
    ));
    assert!(interpreter.environments.is_empty());
}

#[test]
fn recursion_computes_a_factorial() {
    // fn fact(n) { if (n <= 1) { return 1; } return n * fact(n - 1); } fact(5);
    let mut ids = Ids(0);
    let n = var(&mut ids, "n");
    let one = num(&mut ids, 1.0);
    let condition = binary(&mut ids, n, TokenType::LessEqual, "<=", one);
    let one = num(&mut ids, 1.0);
    let base = ret(&mut ids, one);
    let guard = if_then(&mut ids, condition, Node::Block(vec![base]), None);
    let n = var(&mut ids, "n");
    let one = num(&mut ids, 1.0);
    let less = binary(&mut ids, n, TokenType::Minus, "-", one);
    let callee = var(&mut ids, "fact");
    let again = call(&mut ids, callee, vec![less]);
    let n = var(&mut ids, "n");
    let product = binary(&mut ids, n, TokenType::Multiply, "*", again);
    let step = ret(&mut ids, product);
    let declaration = function(&mut ids, "fact", &["n"], vec![guard, step]);
    let callee = var(&mut ids, "fact");
    let five = num(&mut ids, 5.0);
    let program = vec![declaration, call(&mut ids, callee, vec![five])];
    let mut host = new_host();
    let (interpreter, result) = execute(&program, &mut host);
    assert_eq!(number_of(result), 120.0);
    assert!(interpreter.environments.is_empty());
    assert!(interpreter.tasks.is_empty());
}

#[test]
fn a_call_with_too_many_arguments_names_both_counts_and_skips_the_body() {
    // fn f(a) { effect(); } f(1, 2);
    let mut ids = Ids(0);
    let callee = var(&mut ids, "effect");
    let inside = call(&mut ids, callee, vec![]);
    let declaration = function(&mut ids, "f", &["a"], vec![inside]);
    let callee = var(&mut ids, "f");
    let one = num(&mut ids, 1.0);
    let two = num(&mut ids, 2.0);
    let program = vec![declaration, call(&mut ids, callee, vec![one, two])];
    let mut host = new_host();
    let (interpreter, result) = execute(&program, &mut host);
    assert_eq!(runtime_message(result), "Expected 1 arguments, found 2.");
    assert_eq!(host.effects, 0);
    assert!(interpreter.environments.is_empty());
}

#[test]
fn a_native_call_checks_its_arity() {
    let mut ids = Ids(0);
    let callee = var(&mut ids, "print");
    let program = vec![call(&mut ids, callee, vec![])];
    let (_, result) = execute(&program, &mut new_host());
    assert_eq!(runtime_message(result), "Expected 1 arguments, found 0.");
}

#[test]
fn only_functions_can_be_called() {
    let mut ids = Ids(0);
    let callee = text(&mut ids, "abc");
    let program = vec![call(&mut ids, callee, vec![])];
    let (_, result) = execute(&program, &mut new_host());
    assert_eq!(runtime_message(result), "Can only call functions, not abc");

    let mut ids = Ids(0);
    let callee = num(&mut ids, 3.0);
    let program = vec![call(&mut ids, callee, vec![])];
    let (_, result) = execute(&program, &mut new_host());
    assert_eq!(runtime_message(result), "Can only call functions, not 3");

    let mut ids = Ids(0);
    let callee = nothing(&mut ids);
    let program = vec![call(&mut ids, callee, vec![])];
    let (_, result) = execute(&program, &mut new_host());
    assert_eq!(runtime_message(result), "Can only call functions, not none");
}

#[test]
fn an_unknown_global_is_a_runtime_error() {
    let program = vec![Node::Variable { id: 1, name: at(TokenType::Name("y".to_string()), "y", 3, 14) }];
    let (_, result) = execute(&program, &mut new_host());
    assert_eq!(runtime_message(result), "Unknown variable 'y' [3:14]");
}

#[test]
fn assignment_writes_the_declaring_frame() {
    // { let x = 1; { x = 5; } print(x); }
    let mut ids = Ids(0);
    let one = num(&mut ids, 1.0);
    let outer = declare(&mut ids, "x", one);
    let five = num(&mut ids, 5.0);
    let write = assign(&mut ids, "x", five);
    let shown = var(&mut ids, "x");
    let show_it = print(&mut ids, shown);
    let program = vec![Node::Block(vec![outer, Node::Block(vec![write]), show_it])];
    let mut host = new_host();
    let (_, result) = execute(&program, &mut host);
    assert!(result.is_ok());
    assert_eq!(host.printed, vec!["5".to_string()]);
}

#[test]
fn assignment_to_an_unresolved_name_writes_a_global() {
    let mut ids = Ids(0);
    let five = num(&mut ids, 5.0);
    let program = vec![assign(&mut ids, "fresh", five)];
    let (interpreter, result) = execute(&program, &mut new_host());
    assert!(matches!(result, Ok(Object::Nothing)));
    assert!(matches!(interpreter.globals.get("fresh".to_string()), Some(Object::Number(_))));
}

#[test]
fn while_counts_down_and_gives_nothing() {
    // let n = 3; while (n > 0) { print(n); n = n - 1; }
    let mut ids = Ids(0);
    let three = num(&mut ids, 3.0);
    let start = declare(&mut ids, "n", three);
    let n = var(&mut ids, "n");
    let zero = num(&mut ids, 0.0);
    let condition = binary(&mut ids, n, TokenType::Greater, ">", zero);
    let n = var(&mut ids, "n");
    let show_it = print(&mut ids, n);
    let n = var(&mut ids, "n");
    let one = num(&mut ids, 1.0);
    let less = binary(&mut ids, n, TokenType::Minus, "-", one);
    let write = assign(&mut ids, "n", less);
    let body = Node::Block(vec![show_it, write]);
    let program = vec![start, while_do(&mut ids, condition, body)];
    let mut host = new_host();
    let (interpreter, result) = execute(&program, &mut host);
    assert!(matches!(result, Ok(Object::Nothing)));
    assert_eq!(host.printed, vec!["3".to_string(), "2".to_string(), "1".to_string()]);
    assert!(interpreter.environments.is_empty());
}

#[test]
fn if_takes_the_branch_that_the_condition_chooses() {
    let mut ids = Ids(0);
    let condition = boolean(&mut ids, true);
    let yes = num(&mut ids, 1.0);
    let no = num(&mut ids, 2.0);
    let program = vec![if_then(&mut ids, condition, yes, Some(no))];
    let (_, result) = execute(&program, &mut new_host());
    assert_eq!(number_of(result), 1.0);

    let mut ids = Ids(0);
    let condition = nothing(&mut ids);
    let yes = num(&mut ids, 1.0);
    let no = num(&mut ids, 2.0);
    let program = vec![if_then(&mut ids, condition, yes, Some(no))];
    let (_, result) = execute(&program, &mut new_host());
    assert_eq!(number_of(result), 2.0);

    let mut ids = Ids(0);
    let condition = boolean(&mut ids, false);
    let yes = num(&mut ids, 1.0);
    let program = vec![if_then(&mut ids, condition, yes, None)];
    let (_, result) = execute(&program, &mut new_host());
    assert!(matches!(result, Ok(Object::Nothing)));
}

#[test]
fn the_last_statement_gives_the_result_of_a_run() {
    let mut ids = Ids(0);
    let first = num(&mut ids, 1.0);
    let last = text(&mut ids, "end");
    let program = vec![first, last];
    let (_, result) = execute(&program, &mut new_host());
    assert!(matches!(result, Ok(Object::String(s)) if s == "end"));

    let (_, result) = execute(&vec![], &mut new_host());
    assert!(matches!(result, Ok(Object::Nothing)));
}

#[test]
fn falling_off_the_end_of_a_function_gives_nothing() {
    let mut ids = Ids(0);
    let one = num(&mut ids, 1.0);
    let declaration = function(&mut ids, "f", &[], vec![one]);
    let callee = var(&mut ids, "f");
    let program = vec![declaration, call(&mut ids, callee, vec![])];
    let (_, result) = execute(&program, &mut new_host());
    assert!(matches!(result, Ok(Object::Nothing)));
}

#[test]
fn return_leaves_nested_blocks_and_loops() {
    // fn f() { while (true) { { return 9; } } } f();
    let mut ids = Ids(0);
    let nine = num(&mut ids, 9.0);
    let leave = ret(&mut ids, nine);
    let condition = boolean(&mut ids, true);
    let body = Node::Block(vec![Node::Block(vec![leave])]);
    let forever = while_do(&mut ids, condition, body);
    let declaration = function(&mut ids, "f", &[], vec![forever]);
    let callee = var(&mut ids, "f");
    let program = vec![declaration, call(&mut ids, callee, vec![])];
    let (interpreter, result) = execute(&program, &mut new_host());
    assert_eq!(number_of(result), 9.0);
    assert!(interpreter.environments.is_empty());
    assert!(interpreter.tasks.is_empty());
}

#[test]
fn a_return_that_no_call_catches_ends_the_run_with_an_error() {
    let mut interpreter = Interpreter::new();
    let program = vec![Node::Return {
        id: 2,
        value: Box::new(Node::Literal { id: 1, value: Literal::Number(1f64.to_bits()) }),
    }];
    interpreter.run(&program);
    let result = drive(&mut interpreter, &mut new_host());
    assert_eq!(runtime_message(result), "Cannot return outside of a function.");
}

#[test]
fn an_error_inside_blocks_and_calls_leaves_no_frame() {
    // fn f() { { missing; } } f();
    let mut ids = Ids(0);
    let missing = var(&mut ids, "missing");
    let declaration = function(&mut ids, "f", &[], vec![Node::Block(vec![missing])]);
    let callee = var(&mut ids, "f");
    let program = vec![declaration, call(&mut ids, callee, vec![])];
    let (interpreter, result) = execute(&program, &mut new_host());
    assert_eq!(runtime_message(result), "Unknown variable 'missing' [1:1]");
    assert!(interpreter.environments.is_empty());
    assert!(interpreter.tasks.is_empty());
}

#[test]
fn a_failing_native_function_fails_the_run() {
    let mut ids = Ids(0);
    let callee = var(&mut ids, "broken");
    let program = vec![call(&mut ids, callee, vec![])];
    let (_, result) = execute(&program, &mut new_host());
    assert_eq!(runtime_message(result), "the native function failed");
}

#[test]
fn a_reply_of_the_wrong_kind_fails_the_run() {
    let mut interpreter = Interpreter::new();
    let mut ids = Ids(0);
    let left = num(&mut ids, 1.0);
    let right = num(&mut ids, 2.0);
    let program = vec![binary(&mut ids, left, TokenType::Plus, "+", right)];
    interpreter.run(&program);
    let request = loop {
        match interpreter.advance(8) {
            Action::Request(request) => break request,
            Action::Continue => {}
            Action::Finished(_) => panic!("ended before asking"),
        }
    };
    assert!(matches!(request, Request::Arithmetic { operation: Operation::Add, .. }));
    interpreter.resume(Reply::Count(3));
    let result = drive(&mut interpreter, &mut new_host());
    assert_eq!(runtime_message(result), "The host's reply does not answer the request.");
}

#[test]
fn a_reply_that_nothing_asked_for_changes_nothing() {
    let mut interpreter = Interpreter::new();
    interpreter.resume(Reply::Value(Object::Bool(true)));
    assert!(matches!(interpreter.work, Work::Finished(Ok(Object::Nothing))));
    assert!(matches!(interpreter.step(), Action::Finished(Ok(Object::Nothing))));
}

#[test]
fn advance_stops_when_its_budget_is_spent() {
    let mut interpreter = Interpreter::new();
    let mut ids = Ids(0);
    let condition = boolean(&mut ids, true);
    let body = Node::Block(vec![]);
    let program = vec![while_do(&mut ids, condition, body)];
    interpreter.run(&program);
    assert!(matches!(interpreter.advance(1000), Action::Continue));
    assert!(matches!(interpreter.advance(0), Action::Continue));
    assert!(interpreter.environments.len() <= 1);
}

#[test]
fn traverse_begins_a_block_with_a_frame_and_a_task() {
    let mut interpreter = Interpreter::new();
    interpreter.traverse(Node::Block(vec![]));
    assert_eq!(interpreter.environments.len(), 1);
    assert!(matches!(interpreter.tasks.last(), Some(Task::Block { next: 0, .. })));
    let result = drive(&mut interpreter, &mut new_host());
    assert!(matches!(result, Ok(Object::Nothing)));
    assert!(interpreter.environments.is_empty());
}

#[test]
fn traverse_block_runs_statements_in_the_frame_that_stands() {
    let mut interpreter = Interpreter::new();
    interpreter.environments.push(neptune::environment::Environment::new());
    let mut ids = Ids(0);
    let one = num(&mut ids, 1.0);
    interpreter.traverse_block(vec![declare(&mut ids, "x", one)]);
    for _ in 0..4 {
        assert!(matches!(interpreter.step(), Action::Continue));
    }
    assert!(interpreter.environments[0].get("x".to_string()).is_some());
    let result = drive(&mut interpreter, &mut new_host());
    assert!(result.is_ok());
    assert!(interpreter.environments.is_empty());
}

#[test]
fn declare_binds_in_the_innermost_frame_or_globally() {
    let mut interpreter = Interpreter::new();
    interpreter.declare(&name("g"), Object::Bool(true));
    assert!(interpreter.globals.get("g".to_string()).is_some());
    interpreter.environments.push(neptune::environment::Environment::new());
    interpreter.declare(&name("l"), Object::Bool(false));
    assert!(interpreter.globals.get("l".to_string()).is_none());
    assert!(interpreter.environments[0].get("l".to_string()).is_some());
    assert!(matches!(interpreter.work, Work::Deliver(Object::Nothing)));
}

#[test]
fn variable_reads_at_the_recorded_distance() {
    let mut interpreter = Interpreter::new();
    interpreter.environments.push(neptune::environment::Environment::new());
    interpreter.environments.push(neptune::environment::Environment::new());
    interpreter.environments[0].assign("x".to_string(), Object::Number(1f64.to_bits()));
    interpreter.environments[1].assign("x".to_string(), Object::Number(2f64.to_bits()));
    interpreter.depths.insert(10, 0);
    interpreter.depths.insert(11, 1);
    interpreter.depths.insert(12, 5);
    interpreter.depths.insert(13, 0);
    assert_eq!(number_of(interpreter.variable(&name("x"), 10)), 2.0);
    assert_eq!(number_of(interpreter.variable(&name("x"), 11)), 1.0);
    assert!(matches!(interpreter.variable(&name("x"), 12), Ok(Object::Nothing)));
    assert_eq!(runtime_message(interpreter.variable(&name("y"), 13)), "Unknown variable 'y' [1:1]");
    assert!(matches!(interpreter.variable(&name("print"), 99), Ok(Object::Function(_))));
}

#[test]
fn display_forms() {
    let none = String::new();
    assert_eq!(Object::Bool(true).display(&none), "true");
    assert_eq!(Object::Bool(false).display(&none), "false");
    assert_eq!(Object::Nothing.display(&none), "none");
    assert_eq!(Object::String("raw text".to_string()).display(&none), "raw text");
    assert_eq!(Object::Number(0).display(&"12.0".to_string()), "12");
    assert_eq!(Object::Number(0).display(&"0.5".to_string()), "0.5");
    assert_eq!(Object::Number(0).display(&"0".to_string()), "0");
    let native = Object::Function(Function::Native { arg_len: 1, name: "print".to_string() });
    assert_eq!(native.display(&none), "<native fn 'print'>");
    let declared = Object::Function(Function::UserDefined {
        args: vec![],
        body: Node::Block(vec![]),
        name: at(TokenType::Name("fact".to_string()), "fact", 12, 4),
    });
    assert_eq!(declared.display(&none), "<fn 'fact' at [12:4]>");
}

#[test]
fn resolving_twice_gives_the_same_table() {
    let mut ids = Ids(0);
    let one = num(&mut ids, 1.0);
    let outer = declare(&mut ids, "x", one);
    let shown = var(&mut ids, "x");
    let inner = Node::Block(vec![shown]);
    let program = vec![Node::Block(vec![outer, inner])];
    let mut first: HashMap<usize, usize> = HashMap::new();
    assert!(Resolver::new().resolve_block(&mut first, &program).is_ok());
    let mut second = first.clone();
    assert!(Resolver::new().resolve_block(&mut second, &program).is_ok());
    assert_eq!(first, second);
    let mut third: HashMap<usize, usize> = HashMap::new();
    assert!(Resolver::new().resolve_block(&mut third, &program).is_ok());
    assert_eq!(first, third);
}

#[test]
fn a_function_called_from_elsewhere_reads_frames_by_distance() {
    // { let x = 1; fn f() { return x; } { f(); } }
    let mut ids = Ids(0);
    let one = num(&mut ids, 1.0);
    let outer = declare(&mut ids, "x", one);
    let x = var(&mut ids, "x");
    let give = ret(&mut ids, x);
    let declaration = function(&mut ids, "f", &[], vec![give]);
    let callee = var(&mut ids, "f");
    let inner = Node::Block(vec![call(&mut ids, callee, vec![])]);
    let program = vec![Node::Block(vec![outer, declaration, inner])];
    let (interpreter, result) = execute(&program, &mut new_host());
    assert_eq!(runtime_message(result), "Unknown variable 'x' [1:1]");
    assert!(interpreter.environments.is_empty());
}
