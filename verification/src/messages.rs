//! The texts of runtime errors and the display forms of values.

use vstd::prelude::*;
use vstd::string::{StringExecFns, StrSliceExecFns};
use crate::token::{Token, TokenType};
use crate::function::Function;
use crate::interpreter::Object;
use crate::semantics;
use crate::text::usize_to_string;

verus! {

/// A source position as it is written at the end of a message.
pub fn position_text(line: usize, column: usize) -> (text: String)
    ensures
        text@ == semantics::position(line, column),
{
    let mut text = String::from_str(" [");
    text.append(usize_to_string(line).as_str());
    text.append(":");
    text.append(usize_to_string(column).as_str());
    text.append("]");
    text
}

/// The message for a global name that is not bound.
pub fn unknown_variable_text(name: &Token) -> (text: String)
    ensures
        text@ == semantics::unknown_variable_message(name@),
{
    let mut text = String::from_str("Unknown variable '");
    text.append(name.value.as_str());
    text.append("'");
    text.append(position_text(name.line, name.column).as_str());
    text
}

/// The message for a call with the wrong number of arguments.
pub fn arity_text(expected: usize, found: usize) -> (text: String)
    ensures
        text@ == semantics::arity_message(expected as nat, found as nat),
{
    let mut text = String::from_str("Expected ");
    text.append(usize_to_string(expected).as_str());
    text.append(" arguments, found ");
    text.append(usize_to_string(found).as_str());
    text.append(".");
    text
}

/// The message for a call of what is no function.
pub fn not_callable_text(shown: &String) -> (text: String)
    ensures
        text@ == semantics::not_callable_message(shown@),
{
    let mut text = String::from_str("Can only call functions, not ");
    text.append(shown.as_str());
    text
}

/// The message for operands that an operator does not take.
pub fn operands_text(operator: &Token) -> (text: String)
    ensures
        text@ == semantics::operands_message(operator@),
{
    let mut text = match operator._type {
        TokenType::Plus => String::from_str(
            "Left and right values must both be numbers or strings for addition",
        ),
        TokenType::Minus => String::from_str(
            "Left and right values must both be numbers for subtraction",
        ),
        TokenType::Multiply => String::from_str(
            "Left and right values must both be numbers for multiplication",
        ),
        TokenType::Divide => String::from_str(
            "Left and right values must both be numbers for division",
        ),
        _ => String::from_str("Left and right values must both be numbers for comparison"),
    };
    text.append(" ('");
    text.append(operator.value.as_str());
    text.append("').");
    text.append(position_text(operator.line, operator.column).as_str());
    text
}

/// The message for a token that is no binary operator.
pub fn unknown_operator_text(operator: &Token) -> (text: String)
    ensures
        text@ == semantics::unknown_operator_message(operator@),
{
    let mut text = String::from_str("Operator not implemented: '");
    text.append(operator.value.as_str());
    text.append("'");
    text.append(position_text(operator.line, operator.column).as_str());
    text
}

/// The message for the negation of what is no number.
pub fn negation_text(operator: &Token) -> (text: String)
    ensures
        text@ == semantics::negation_message(operator@),
{
    let mut text = String::from_str("Value must be number when negating (-).");
    text.append(position_text(operator.line, operator.column).as_str());
    text
}

/// The message for a token that is no unary operator.
pub fn unknown_unary_text(operator: &Token) -> (text: String)
    ensures
        text@ == semantics::unknown_unary_message(operator@),
{
    let mut text = String::from_str("Unrecognized unary operator: '");
    text.append(operator.value.as_str());
    text.append("'");
    text.append(position_text(operator.line, operator.column).as_str());
    text
}

/// The message for a `return` that leaves no call.
pub fn stray_return_text() -> (text: String)
    ensures
        text@ == semantics::stray_return_message(),
{
    String::from_str("Cannot return outside of a function.")
}

/// The message for a reply that does not answer the request.
pub fn stray_reply_text() -> (text: String)
    ensures
        text@ == semantics::stray_reply_message(),
{
    String::from_str("The host's reply does not answer the request.")
}

/// A number's text without a trailing ".0".
pub fn integral_text(text: &String) -> (out: String)
    ensures
        out@ == semantics::integral(text@),
{
    let length = text.as_str().unicode_len();
    if length >= 2 && text.as_str().get_char(length - 2) == '.' && text.as_str().get_char(
        length - 1,
    ) == '0' {
        String::from_str(text.as_str().substring_char(0, length - 2))
    } else {
        text.clone()
    }
}

impl Object {
    /// The display form of a value. A number is shown as the host writes it,
    /// without a trailing ".0": `number` is that text, and is read for a number
    /// only.
    pub fn display(&self, number: &String) -> (text: String)
        ensures
            text@ == semantics::display(self@, number@),
    {
        match self {
            Object::Bool(b) => {
                if *b {
                    String::from_str("true")
                } else {
                    String::from_str("false")
                }
            },
            Object::Function(Function::UserDefined { name, .. }) => {
                let mut text = String::from_str("<fn '");
                text.append(name.value.as_str());
                text.append("' at [");
                text.append(usize_to_string(name.line).as_str());
                text.append(":");
                text.append(usize_to_string(name.column).as_str());
                text.append("]>");
                text
            },
            Object::Function(Function::Native { name, .. }) => {
                let mut text = String::from_str("<native fn '");
                text.append(name.as_str());
                text.append("'>");
                text
            },
            Object::Number(_) => integral_text(number),
            Object::String(text) => text.clone(),
            Object::Nothing => String::from_str("none"),
        }
    }
}

} // verus!
