use neptune::ast::{Literal, Node};
use neptune::error::Error;
use neptune::function::Function;
use neptune::interpreter::{Interpreter, Object};
use neptune::lexer::{numerals, Lexer};
use neptune::machine::{Action, Operation, Reply, Request};
use neptune::parser::Parser;
use neptune::resolver::Resolver;
use neptune::token::{Token, TokenType};

// ---------------------------------------------------------------------------
// From source text to a result, with a host that computes on doubles.
// ---------------------------------------------------------------------------
struct Host {
    printed: Vec<String>,
    effects: usize,
}

fn show(value: &Object) -> String {
    match value {
        Object::Number(bits) => value.display(&f64::from_bits(*bits).to_string()),
        other => other.display(&String::new()),
    }
}

fn answer(host: &mut Host, request: Request) -> Reply {
    match request {
        Request::Arithmetic { operation, left, right } => {
            let (l, r) = (f64::from_bits(left), f64::from_bits(right));
            Reply::Value(match operation {
                Operation::Add => Object::Number((l + r).to_bits()),
                Operation::Subtract => Object::Number((l - r).to_bits()),
                Operation::Multiply => Object::Number((l * r).to_bits()),
                Operation::Divide => Object::Number((l / r).to_bits()),
                Operation::Greater => Object::Bool(l > r),
                Operation::Less => Object::Bool(l < r),
                Operation::GreaterEqual => Object::Bool(l >= r),
                Operation::LessEqual => Object::Bool(l <= r),
                Operation::Equal => Object::Bool(l == r),
                Operation::NotEqual => Object::Bool(l != r),
            })
        }
        Request::Negate { value } => Reply::Value(Object::Number((-f64::from_bits(value)).to_bits())),
        Request::Count { value } => Reply::Count(f64::from_bits(value) as usize),
        Request::Display { value } => Reply::Text(f64::from_bits(value).to_string()),
        Request::Native { name, args } => match name.as_str() {
            "print" => {
                host.printed.push(show(&args[0]));
                Reply::Value(Object::Nothing)
            }
            "effect" => {
                host.effects += 1;
                Reply::Value(Object::Bool(true))
            }
            _ => Reply::Failure(format!("no native function '{}'", name)),
        },
    }
}

fn lex(source: &str) -> Result<Vec<Token>, Error> {
    let text = source.to_string();
    let tokens = Lexer::new(&text).tokenize()?;
    numerals(tokens, |numeral: &String| numeral.parse::<f64>().ok().map(f64::to_bits))
}

fn parse(source: &str) -> Result<Vec<Node>, Error> {
    let tokens = lex(source)?;
    Parser::new(&tokens).parse()
}

fn run(source: &str, host: &mut Host) -> (Interpreter, Result<Object, Error>) {
    let program = match parse(source) {
        Ok(program) => program,
        Err(error) => return (Interpreter::new(), Err(error)),
    };
    let mut interpreter = Interpreter::new();
    interpreter.globals.assign(
        "effect".to_string(),
        Object::Function(Function::Native { arg_len: 0, name: "effect".to_string() }),
    );
    if let Err(error) = Resolver::new().resolve_block(&mut interpreter.depths, &program) {
        return (interpreter, Err(error));
    }
    interpreter.run(&program);
    loop {
        match interpreter.advance(256) {
            Action::Continue => {}
            Action::Request(request) => {
                let reply = answer(host, request);
                interpreter.resume(reply);
            }
            Action::Finished(result) => return (interpreter, result),
        }
    }
}

fn new_host() -> Host {
    Host { printed: vec![], effects: 0 }
}

fn syntax_message(result: Result<Object, Error>) -> String {
    match result {
        Err(Error::Syntax(message)) => message,
        Err(Error::Runtime(message)) => panic!("runtime error: {}", message),
        _ => panic!("expected a syntax error"),
    }
}

fn runtime_message(result: Result<Object, Error>) -> String {
    match result {
        Err(Error::Runtime(message)) => message,
        Err(Error::Syntax(message)) => panic!("syntax error: {}", message),
        _ => panic!("expected a runtime error"),
    }
}

fn kinds(tokens: &Vec<Token>) -> Vec<String> {
    tokens
        .iter()
        .map(|token| match &token._type {
            TokenType::Number(bits) => format!("Number({})", f64::from_bits(*bits)),
            TokenType::String(text) => format!("String({})", text),
            TokenType::Name(text) => format!("Name({})", text),
            TokenType::Bool(value) => format!("Bool({})", value),
            TokenType::Plus => "Plus".to_string(),
            TokenType::Minus => "Minus".to_string(),
            TokenType::Multiply => "Multiply".to_string(),
            TokenType::Divide => "Divide".to_string(),
            TokenType::ParOpen => "ParOpen".to_string(),
            TokenType::ParClose => "ParClose".to_string(),
            TokenType::Greater => "Greater".to_string(),
            TokenType::Less => "Less".to_string(),
            TokenType::GreraterEqual => "GreraterEqual".to_string(),
            TokenType::LessEqual => "LessEqual".to_string(),
            TokenType::Equal => "Equal".to_string(),
            TokenType::NotEqual => "NotEqual".to_string(),
            TokenType::BrackOpen => "BrackOpen".to_string(),
            TokenType::BrackClose => "BrackClose".to_string(),
            TokenType::If => "If".to_string(),
            TokenType::Else => "Else".to_string(),
            TokenType::Not => "Not".to_string(),
            TokenType::While => "While".to_string(),
            TokenType::For => "For".to_string(),
            TokenType::Or => "Or".to_string(),
            TokenType::And => "And".to_string(),
            TokenType::Assign => "Assign".to_string(),
            TokenType::FuncDeclare => "FuncDeclare".to_string(),
            TokenType::Declare => "Declare".to_string(),
            TokenType::Return => "Return".to_string(),
            TokenType::Print => "Print".to_string(),
            TokenType::Separate => "Separate".to_string(),
            TokenType::Eof => "Eof".to_string(),
            TokenType::Comma => "Comma".to_string(),
            TokenType::Nothing => "Nothing".to_string(),
        })
        .collect()
}

// ---------------------------------------------------------------------------
// The lexer
// ---------------------------------------------------------------------------
#[test]
fn a_declaration_is_cut_into_its_tokens() {
    let tokens = lex("let x = 1;").ok().expect("tokens");
    assert_eq!(kinds(&tokens), vec!["Declare", "Name(x)", "Assign", "Number(1)", "Separate", "Eof"]);
    let texts: Vec<&str> = tokens.iter().map(|t| t.value.as_str()).collect();
    assert_eq!(texts, vec!["let", "x", "=", "1", ";", "<eof>"]);
    let columns: Vec<usize> = tokens.iter().map(|t| t.column).collect();
    assert_eq!(columns, vec![1, 5, 7, 9, 10, 11]);
    assert!(tokens.iter().all(|t| t.line == 1));
}

#[test]
fn the_lexer_leaves_the_value_of_a_numeral_at_zero() {
    let text = "12.5".to_string();
    let tokens = Lexer::new(&text).tokenize().ok().expect("tokens");
    assert!(matches!(tokens[0]._type, TokenType::Number(0)));
    assert_eq!(tokens[0].value, "12.5");
}

#[test]
fn keywords_and_names_are_told_apart() {
    let tokens = lex("if else while for fn let return print or and true false none iffy y_2").ok().expect("tokens");
    assert_eq!(
        kinds(&tokens)[..13],
        [
            "If", "Else", "While", "For", "FuncDeclare", "Declare", "Return", "Print", "Or", "And",
            "Bool(true)", "Bool(false)", "Nothing"
        ]
    );
    assert_eq!(kinds(&tokens)[13], "Name(iffy)");
    assert_eq!(kinds(&tokens)[14], "Name(y_2)");
}

#[test]
fn an_underscore_begins_no_token() {
    match lex("_x") {
        Err(Error::Syntax(message)) => assert_eq!(message, "Unknown character '_' [1:1]"),
        _ => panic!("expected a syntax error"),
    }
}

#[test]
fn operators_of_one_and_two_characters() {
    let tokens = lex("> >= < <= = == ! != + - * / ( ) { } ; ,").ok().expect("tokens");
    assert_eq!(
        kinds(&tokens),
        vec![
            "Greater", "GreraterEqual", "Less", "LessEqual", "Assign", "Equal", "Not", "NotEqual",
            "Plus", "Minus", "Multiply", "Divide", "ParOpen", "ParClose", "BrackOpen", "BrackClose",
            "Separate", "Comma", "Eof"
        ]
    );
    assert_eq!(tokens[1].value, ">=");
    assert_eq!(tokens[7].value, "!=");
}

#[test]
fn a_string_keeps_its_text_without_the_quotes() {
    let tokens = lex("\"a b\" \"\"").ok().expect("tokens");
    assert_eq!(kinds(&tokens), vec!["String(a b)", "String()", "Eof"]);
    assert_eq!(tokens[0].value, "a b");
    assert_eq!(tokens[0].column, 1);
    assert_eq!(tokens[1].column, 7);
}

#[test]
fn positions_count_lines_and_columns_from_one() {
    let tokens = lex("a\n  b\n\nc").ok().expect("tokens");
    let places: Vec<(usize, usize)> = tokens.iter().map(|t| (t.line, t.column)).collect();
    assert_eq!(places, vec![(1, 1), (2, 3), (4, 1), (4, 2)]);
}

#[test]
fn positions_are_byte_offsets_counted_in_characters() {
    // The offset of a token counts characters, and the position is that of the
    // byte at this offset: behind a character of two bytes a position lags.
    let tokens = lex("\u{e9}\nx").ok().expect("tokens");
    assert_eq!(kinds(&tokens), vec!["Name(\u{e9})", "Name(x)", "Eof"]);
    let places: Vec<(usize, usize)> = tokens.iter().map(|t| (t.line, t.column)).collect();
    assert_eq!(places, vec![(1, 1), (1, 3), (2, 1)]);
}

#[test]
fn an_empty_text_is_the_end_token_alone() {
    let tokens = lex("").ok().expect("tokens");
    assert_eq!(kinds(&tokens), vec!["Eof"]);
    assert_eq!((tokens[0].line, tokens[0].column), (1, 1));
    assert_eq!(tokens[0].value, "<eof>");
}

#[test]
fn lexical_errors() {
    match lex("let s = \"abc") {
        Err(Error::Syntax(message)) => assert_eq!(message, "Unterminated string. [1:9]"),
        _ => panic!("expected a syntax error"),
    }
    match lex("x = 1.2.3;") {
        Err(Error::Syntax(message)) => assert_eq!(message, "Invalid float. [1:5]"),
        _ => panic!("expected a syntax error"),
    }
    match lex("a\n #") {
        Err(Error::Syntax(message)) => assert_eq!(message, "Unknown character '#' [2:2]"),
        _ => panic!("expected a syntax error"),
    }
}

#[test]
fn numerals_are_read_by_the_caller() {
    let tokens = lex("1.5 x 20").ok().expect("tokens");
    assert_eq!(kinds(&tokens), vec!["Number(1.5)", "Name(x)", "Number(20)", "Eof"]);
    assert_eq!(tokens[0].value, "1.5");
    assert_eq!((tokens[2].line, tokens[2].column), (1, 7));
}

#[test]
fn a_numeral_that_is_no_number_is_a_syntax_error() {
    // The lexer takes every numeric character; not all of them are digits.
    match lex("x = 1\u{b2};") {
        Err(Error::Syntax(message)) => assert_eq!(message, "Invalid number '1\u{b2}' [1:5]"),
        _ => panic!("expected a syntax error"),
    }
    let text = "7 8".to_string();
    let tokens = Lexer::new(&text).tokenize().ok().expect("tokens");
    match numerals(tokens, |numeral: &String| if numeral == "8" { None } else { Some(1) }) {
        Err(Error::Syntax(message)) => assert_eq!(message, "Invalid number '8' [1:3]"),
        _ => panic!("expected a syntax error"),
    }
}

// ---------------------------------------------------------------------------
// The parser
// ---------------------------------------------------------------------------
fn number_in(node: &Node) -> f64 {
    match node {
        Node::Literal { value: Literal::Number(bits), .. } => f64::from_bits(*bits),
        _ => panic!("expected a number"),
    }
}

#[test]
fn multiplication_binds_tighter_than_addition() {
    let program = parse("1 + 2 * 3;").ok().expect("a program");
    assert_eq!(program.len(), 1);
    match &program[0] {
        Node::BinaryOperator { left, operator, right, .. } => {
            assert!(matches!(operator._type, TokenType::Plus));
            assert_eq!(number_in(left), 1.0);
            match &**right {
                Node::BinaryOperator { left, operator, right, .. } => {
                    assert!(matches!(operator._type, TokenType::Multiply));
                    assert_eq!(number_in(left), 2.0);
                    assert_eq!(number_in(right), 3.0);
                }
                _ => panic!("expected a product on the right"),
            }
        }
        _ => panic!("expected a sum"),
    }
}

#[test]
fn operators_of_one_level_group_to_the_left() {
    let program = parse("8 - 3 - 2;").ok().expect("a program");
    match &program[0] {
        Node::BinaryOperator { left, right, .. } => {
            assert_eq!(number_in(right), 2.0);
            assert!(matches!(&**left, Node::BinaryOperator { .. }));
        }
        _ => panic!("expected a difference"),
    }
}

#[test]
fn parentheses_group() {
    let program = parse("(1 + 2) * 3;").ok().expect("a program");
    match &program[0] {
        Node::BinaryOperator { left, operator, right, .. } => {
            assert!(matches!(operator._type, TokenType::Multiply));
            assert!(matches!(&**left, Node::BinaryOperator { .. }));
            assert_eq!(number_in(right), 3.0);
        }
        _ => panic!("expected a product"),
    }
}

#[test]
fn statements_of_every_kind_are_parsed() {
    let program = parse(
        "let a = 1; a = 2; if (a) { } else { } while (a) a = 0; fn f(x, y) { return x; } f(1, 2); { } print a; !a and -a or a;",
    )
    .ok()
    .expect("a program");
    assert_eq!(program.len(), 9);
    assert!(matches!(program[0], Node::Declare { .. }));
    assert!(matches!(program[1], Node::Assign { .. }));
    assert!(matches!(program[2], Node::If { else_block: Some(_), .. }));
    assert!(matches!(program[3], Node::While { .. }));
    match &program[4] {
        Node::DeclareFn { name, args, body, .. } => {
            assert_eq!(name.value, "f");
            assert_eq!(args.len(), 2);
            assert_eq!(args[1].value, "y");
            assert!(matches!(&**body, Node::Block(statements) if statements.len() == 1));
        }
        _ => panic!("expected a function declaration"),
    }
    assert!(matches!(&program[5], Node::FnCall { args, .. } if args.len() == 2));
    assert!(matches!(&program[6], Node::Block(statements) if statements.is_empty()));
    match &program[7] {
        Node::FnCall { name, args, .. } => {
            assert!(matches!(&**name, Node::Variable { name, .. } if name.value == "print"));
            assert_eq!(args.len(), 1);
        }
        _ => panic!("expected a call of print"),
    }
    assert!(matches!(&program[8], Node::Logical { operator, .. } if matches!(operator._type, TokenType::Or)));
}

#[test]
fn the_token_behind_an_expression_in_parentheses_is_passed_over() {
    // The parser does not ask which token closes the parentheses.
    let program = parse("(1;;").ok().expect("a program");
    assert_eq!(program.len(), 1);
    assert_eq!(number_in(&program[0]), 1.0);
    match parse("(1;") {
        Err(Error::Syntax(message)) => {
            assert_eq!(message, "Expected a separator after the statement. [1:4]")
        }
        _ => panic!("expected a syntax error"),
    }
}

#[test]
fn calls_follow_each_other_and_take_any_number_of_arguments() {
    let program = parse("f()(1)(2, 3);").ok().expect("a program");
    match &program[0] {
        Node::FnCall { name, args, .. } => {
            assert_eq!(args.len(), 2);
            match &**name {
                Node::FnCall { name, args, .. } => {
                    assert_eq!(args.len(), 1);
                    assert!(matches!(&**name, Node::FnCall { args, .. } if args.is_empty()));
                }
                _ => panic!("expected a call"),
            }
        }
        _ => panic!("expected a call"),
    }
}

#[test]
fn identifiers_count_up_from_one_in_the_order_of_parsing() {
    // `x` takes two identifiers, of which it keeps the second; `1` takes one;
    // the sum takes the next.
    let program = parse("x + 1;").ok().expect("a program");
    match &program[0] {
        Node::BinaryOperator { id, left, right, .. } => {
            assert!(matches!(&**left, Node::Variable { id: 2, .. }));
            assert!(matches!(&**right, Node::Literal { id: 3, .. }));
            assert_eq!(*id, 4);
        }
        _ => panic!("expected a sum"),
    }
}

fn collect(node: &Node, ids: &mut Vec<usize>) {
    match node {
        Node::BinaryOperator { id, left, right, .. } | Node::Logical { id, left, right, .. } => {
            ids.push(*id);
            collect(left, ids);
            collect(right, ids);
        }
        Node::Literal { id, .. } | Node::Variable { id, .. } => ids.push(*id),
        Node::UnaryOperator { id, child, .. } => {
            ids.push(*id);
            collect(child, ids);
        }
        Node::Declare { id, value, .. } | Node::Assign { id, value, .. } | Node::Return { id, value } => {
            ids.push(*id);
            collect(value, ids);
        }
        Node::If { id, condition, body, else_block } => {
            ids.push(*id);
            collect(condition, ids);
            collect(body, ids);
            if let Some(other) = else_block {
                collect(other, ids);
            }
        }
        Node::While { id, condition, body } => {
            ids.push(*id);
            collect(condition, ids);
            collect(body, ids);
        }
        Node::DeclareFn { id, body, .. } => {
            ids.push(*id);
            collect(body, ids);
        }
        Node::FnCall { id, name, args } => {
            ids.push(*id);
            collect(name, ids);
            for arg in args {
                collect(arg, ids);
            }
        }
        Node::Block(statements) => {
            for statement in statements {
                collect(statement, ids);
            }
        }
    }
}

#[test]
fn every_node_gets_an_identifier_of_its_own() {
    let program = parse("fn f(n) { if (n <= 1) { return 1; } return n * f(n - 1); } print f(5); let x = none;")
        .ok()
        .expect("a program");
    let mut ids = vec![];
    for node in &program {
        collect(node, &mut ids);
    }
    let mut sorted = ids.clone();
    sorted.sort();
    sorted.dedup();
    assert_eq!(sorted.len(), ids.len());
    assert!(ids.iter().all(|id| *id >= 1));
}

#[test]
fn syntax_errors_of_the_parser_name_the_place() {
    let cases = vec![
        ("let = 1;", "Expected a name after 'let' keyword. [1:5]"),
        ("let x 1;", "Expected '=' to assign a value to 'x' [1:7]"),
        ("let x = 1", "Expected a separator after the statement. [1:10]"),
        ("if x) { }", "Expected open parenthesis to if statement. [1:4]"),
        ("while (x { }", "Expected ')' after condition of while loop. [1:10]"),
        ("f(1, 2;", "Expected closing parenthesis after argument list. [1:7]"),
        ("fn (a) { }", "Expected a name for the function declaration. [1:4]"),
        ("fn f(a, ) { }", "Expected a name for function arguments. [1:9]"),
        ("{ x;", "Couldn't identify this token: '<eof>' [1:5]"),
        ("for (x) { }", "For loops are not supported. [1:1]"),
        ("1 + ;", "Couldn't identify this token: ';' [1:5]"),
        ("return 1", "Expected separator after return statement. [1:9]"),
    ];
    for (source, expected) in cases {
        match parse(source) {
            Err(Error::Syntax(message)) => assert_eq!(message, expected, "{}", source),
            _ => panic!("expected a syntax error for {}", source),
        }
    }
}

#[test]
fn more_than_150_parameters_are_refused() {
    let names: Vec<String> = (0..151).map(|i| format!("p{}", i)).collect();
    let source = format!("fn f({}) {{ }}", names.join(", "));
    match parse(&source) {
        Err(Error::Syntax(message)) => {
            assert!(message.starts_with("Cannot have more than 150 arguments in a function declaration."))
        }
        _ => panic!("expected a syntax error"),
    }
    let source = format!("fn f({}) {{ }}", names[..150].join(", "));
    assert!(parse(&source).is_ok());
}

#[test]
fn tokens_without_an_end_token_are_parsed_to_their_end() {
    let mut tokens = lex("1;").ok().expect("tokens");
    tokens.pop();
    let program = Parser::new(&tokens).parse().ok().expect("a program");
    assert_eq!(program.len(), 1);
    let none: Vec<Token> = vec![];
    assert!(Parser::new(&none).parse().ok().expect("a program").is_empty());
}

#[test]
fn the_public_parts_of_the_parser_parse_their_part() {
    let tokens = lex("let x = 1; y = 2; if (a) b; 1 == 2 3 + 4").ok().expect("tokens");
    let mut parser = Parser::new(&tokens);
    assert!(matches!(parser.declare_var(), Ok(Node::Declare { .. })));
    assert!(matches!(parser.assign(), Ok(Node::Assign { .. })));
    assert!(matches!(parser.if_statement(), Ok(Node::If { else_block: None, .. })));
    assert!(matches!(parser.equality(), Ok(Node::BinaryOperator { .. })));
    assert!(matches!(parser.get_expression(), Ok(Node::BinaryOperator { .. })));
}

// ---------------------------------------------------------------------------
// Whole programs
// ---------------------------------------------------------------------------
#[test]
fn one_plus_one_from_source() {
    let mut host = new_host();
    let (_, result) = run("print 1 + 1; 1 + 1;", &mut host);
    assert!(matches!(result, Ok(Object::Number(bits)) if f64::from_bits(bits) == 2.0));
    assert_eq!(host.printed, vec!["2"]);
}

#[test]
fn string_repetition_from_source() {
    let mut host = new_host();
    let (_, result) = run("\"ab\" * 3;", &mut host);
    assert!(matches!(result, Ok(Object::String(text)) if text == "ababab"));
    let (_, result) = run("3 * \"ab\";", &mut host);
    assert_eq!(
        runtime_message(result),
        "Left and right values must both be numbers for multiplication ('*'). [1:3]"
    );
}

#[test]
fn shadowing_from_source() {
    let mut host = new_host();
    let (interpreter, result) = run("let x = 1; { let x = 2; print(x); } print(x);", &mut host);
    assert!(result.is_ok());
    assert_eq!(host.printed, vec!["2", "1"]);
    assert!(matches!(
        interpreter.globals.get("x".to_string()),
        Some(Object::Number(bits)) if f64::from_bits(*bits) == 1.0
    ));
}

#[test]
fn factorial_from_source() {
    let mut host = new_host();
    let (_, result) = run(
        "fn fact(n) { if (n <= 1) { return 1; } return n * fact(n - 1); } fact(5);",
        &mut host,
    );
    assert!(matches!(result, Ok(Object::Number(bits)) if f64::from_bits(bits) == 120.0));
}

#[test]
fn short_circuit_from_source() {
    let mut host = new_host();
    let (_, result) = run("false and effect();", &mut host);
    assert!(matches!(result, Ok(Object::Bool(false))));
    let (_, result) = run("true or effect();", &mut host);
    assert!(matches!(result, Ok(Object::Bool(true))));
    assert_eq!(host.effects, 0);
    let (_, result) = run("true and effect();", &mut host);
    assert!(matches!(result, Ok(Object::Bool(true))));
    assert_eq!(host.effects, 1);
}

#[test]
fn arity_mismatch_from_source() {
    let mut host = new_host();
    let (_, result) = run("fn f(a) { effect(); } f(1, 2);", &mut host);
    assert_eq!(runtime_message(result), "Expected 1 arguments, found 2.");
    assert_eq!(host.effects, 0);
}

#[test]
fn resolution_errors_from_source() {
    let mut host = new_host();
    let (_, result) = run("{ let a = a; }", &mut host);
    assert_eq!(syntax_message(result), "'a' cannot be read in its own declaration. [1:11]");
    let (_, result) = run("return 1;", &mut host);
    assert_eq!(syntax_message(result), "Cannot return outside of a function declaration.");
    let (_, result) = run("print 1; { return 1; }", &mut host);
    assert_eq!(syntax_message(result), "Cannot return outside of a function declaration.");
    assert!(host.printed.is_empty());
    let (_, result) = run("let a = 1; let a = a + 1; a;", &mut host);
    assert!(matches!(result, Ok(Object::Number(bits)) if f64::from_bits(bits) == 2.0));
}

#[test]
fn a_loop_that_sums() {
    let mut host = new_host();
    let (_, result) = run(
        "let total = 0; let i = 1; while (i <= 10) { total = total + i; i = i + 1; } total;",
        &mut host,
    );
    assert!(matches!(result, Ok(Object::Number(bits)) if f64::from_bits(bits) == 55.0));
}

#[test]
fn functions_are_values() {
    let mut host = new_host();
    let (_, result) = run(
        "fn twice(f, x) { return f(f(x)); } fn inc(n) { return n + 1; } print twice; twice(inc, 5);",
        &mut host,
    );
    assert!(matches!(result, Ok(Object::Number(bits)) if f64::from_bits(bits) == 7.0));
    assert_eq!(host.printed, vec!["<fn 'twice' at [1:4]>"]);
}

#[test]
fn locals_of_a_call_do_not_outlive_it() {
    let mut host = new_host();
    let (interpreter, result) = run("fn f(a) { let b = a; return b; } f(3); b;", &mut host);
    assert_eq!(runtime_message(result), "Unknown variable 'b' [1:40]");
    assert!(interpreter.environments.is_empty());
}

#[test]
fn division_by_zero_is_infinite() {
    let mut host = new_host();
    let (_, result) = run("print 1 / 0; print 0 - 1 / 0; print -(1.5);", &mut host);
    assert!(result.is_ok());
    assert_eq!(host.printed, vec!["inf", "-inf", "-1.5"]);
}
