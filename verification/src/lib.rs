//! A small dynamically typed scripting language: a lexer, a parser, a static
//! scope resolver, and an evaluator.
//!
//! A source text is cut into tokens ([`lexer`]), the tokens are parsed into a
//! syntax tree whose nodes carry identifiers ([`parser`]), the resolver writes
//! for every use of a local name how many scopes lie between the use and its
//! declaration ([`resolver`]), and the evaluator runs the tree by those
//! distances ([`interpreter`]).
//!
//! Numbers are doubles. The library carries them as bit patterns and never
//! computes with them: the evaluator asks its host for every operation on
//! numbers, as it asks for every call of a native function, and the host hands
//! the reply back. The evaluator is therefore a machine that takes one step at
//! a time ([`machine`], [`semantics`]); the host drives it:
//!
//! ```text
//! interpreter.run(&program);
//! loop {
//!     match interpreter.advance(budget) {
//!         Action::Continue => {}
//!         Action::Request(request) => interpreter.resume(answer(request)),
//!         Action::Finished(result) => return result,
//!     }
//! }
//! ```
//!
//! What each part does is stated as mathematics beside it: [`lexemes`] for the
//! lexer, [`grammar`] for the parser, the functions of [`resolver`] over its
//! state for the resolver, and [`semantics`] for the evaluator. What holds of all
//! inputs is proved beside that: in [`lexemes`] that the tokens end once, in
//! [`grammar_laws`] that a parse moves on, in [`grammar_numbering`] that no two
//! nodes of a parsed program share an identifier, in [`resolver_laws`] when
//! resolution succeeds and what it does to the scopes, and in
//! [`interpreter_laws`] that frames follow the tasks on every way out.

pub mod token;
pub mod ast;
pub mod text;
pub mod chars;
pub mod position;
pub mod function;
pub mod error;
pub mod environment;
pub mod interpreter;
pub mod machine;
pub mod semantics;
pub mod messages;
pub mod lexemes;
pub mod lexer;
pub mod numbering;
pub mod grammar;
pub mod grammar_lemmas;
pub mod grammar_laws;
pub mod grammar_numbering;
pub mod parser;
pub mod resolver;
pub mod resolver_laws;
pub mod interpreter_laws;
