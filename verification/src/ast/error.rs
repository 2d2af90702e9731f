//! Errors of evaluation: each is recorded, none ends the session.

use crate::ast::types::DataType;
use crate::ast::ASTBinaryOperatorKind;
use vstd::prelude::*;

verus! {

/// The kinds of error that evaluating a statement can record.
#[derive(Clone, Copy, Debug, PartialEq, Eq, Structural)]
pub enum ErrorKind {
    /// Two operands have no common type.
    CannotCoerce { left: DataType, right: DataType },
    /// A text was given where a bitwise operation needs an integer.
    TextToInteger,
    /// Two values of these types cannot be tested for equality.
    CannotEquate { left: DataType, right: DataType },
    /// Two values of these types cannot be ordered.
    CannotOrder { left: DataType, right: DataType },
    /// The name is already declared in the innermost scope.
    AlreadyDeclared,
    /// The global scope was asked to end.
    CannotExitGlobal,
    /// The variable is not mutable.
    Immutable,
    /// The variable has type `expected` and was assigned a value of type `found`.
    TypeMismatch { expected: DataType, found: DataType },
    /// No scope declares the name.
    NotFound,
    /// The left operand of a binary operator produced no value.
    LeftOperandFailed,
    /// The right operand of a binary operator produced no value.
    RightOperandFailed,
    /// The operand of a unary operator produced no value.
    OperandFailed,
    /// The operator is not defined on operands of these types.
    InvalidOperands { operator: ASTBinaryOperatorKind, left: DataType, right: DataType },
    /// The divisor of a division is zero.
    DivisionByZero,
    /// The divisor of a remainder is zero.
    ModuloByZero,
    /// The result of an integer operation does not fit in 64 bits.
    Overflow,
    /// The distance of a shift is negative or more than 63.
    ShiftOutOfRange,
    /// A bitwise or shift operator was given an operand that is no integer.
    IntegerOperandsRequired { operator: ASTBinaryOperatorKind },
    /// The value cannot be negated.
    CannotNegate { operand: DataType },
    /// The initializer of a declaration produced no value.
    InitializerFailed,
    /// The right-hand side of an assignment produced no value.
    AssignmentFailed,
    /// The called function is not known.
    UnknownFunction,
}


/// An error as contracts see it: its kind, and the name it is about.
pub type ErrorView = (ErrorKind, Seq<char>);

/// A recorded error: its kind, and the name of the variable or function that
/// it is about, empty where it is about none.
#[derive(Debug, PartialEq)]
pub struct EvalError {
    pub kind: ErrorKind,
    pub subject: String,
}

impl View for EvalError {
    type V = ErrorView;

    open spec fn view(&self) -> ErrorView {
        (self.kind, self.subject@)
    }
}

impl EvalError {
    /// An error of a kind about a name.
    pub fn new(kind: ErrorKind, subject: String) -> (r: Self)
        ensures
            r@ == (kind, subject@),
    {
        EvalError { kind, subject }
    }
}

/// The views of a sequence of errors.
pub open spec fn error_views(errors: Seq<EvalError>) -> Seq<ErrorView> {
    errors.map_values(|e: EvalError| e@)
}

/// The views of a sequence of texts.
pub open spec fn text_views(texts: Seq<String>) -> Seq<Seq<char>> {
    texts.map_values(|t: String| t@)
}


/// The name of a type, as messages show it.
pub open spec fn kind_name(data_type: DataType) -> Seq<char> {
    match data_type {
        DataType::Integer => "Integer"@,
        DataType::Float => "Float"@,
        DataType::Boolean => "Boolean"@,
        DataType::String => "String"@,
        DataType::Unknown => "Unknown"@,
    }
}

/// The name of a type, as messages show it.
pub fn name_of(data_type: DataType) -> (r: &'static str)
    ensures
        r@ == kind_name(data_type),
{
    match data_type {
        DataType::Integer => "Integer",
        DataType::Float => "Float",
        DataType::Boolean => "Boolean",
        DataType::String => "String",
        DataType::Unknown => "Unknown",
    }
}

/// The words before and between the two types in the message of an operator
/// that is not defined on its operands, and whether the message names the
/// right type first.
pub open spec fn operands_phrase(operator: ASTBinaryOperatorKind) -> (
    Seq<char>,
    Seq<char>,
    bool,
) {
    match operator {
        ASTBinaryOperatorKind::Plus => ("Cannot add "@, " and "@, false),
        ASTBinaryOperatorKind::Minus => ("Cannot subtract "@, " from "@, true),
        ASTBinaryOperatorKind::Multiply => ("Cannot multiply "@, " and "@, false),
        ASTBinaryOperatorKind::Divide => ("Cannot divide "@, " by "@, false),
        ASTBinaryOperatorKind::Modulo => ("Cannot compute modulo of "@, " and "@, false),
        ASTBinaryOperatorKind::Exponentiation => ("Cannot exponentiate "@, " and "@, false),
        _ => ("Cannot apply the operator to "@, " and "@, false),
    }
}

/// The message of a bitwise or shift operator that was given an operand that is no integer.
pub open spec fn integers_phrase(operator: ASTBinaryOperatorKind) -> Seq<char> {
    match operator {
        ASTBinaryOperatorKind::BitwiseAnd => "Bitwise AND requires integer operands"@,
        ASTBinaryOperatorKind::BitwiseOr => "Bitwise OR requires integer operands"@,
        ASTBinaryOperatorKind::BitwiseXor => "Bitwise XOR requires integer operands"@,
        ASTBinaryOperatorKind::LeftShift => "Left shift requires integer operands"@,
        ASTBinaryOperatorKind::RightShift => "Right shift requires integer operands"@,
        _ => "The operator requires integer operands"@,
    }
}

/// The message of an error of a kind about a name.
pub open spec fn message_text(kind: ErrorKind, subject: Seq<char>) -> Seq<char> {
    match kind {
        ErrorKind::CannotCoerce { left, right } => "Cannot coerce "@ + kind_name(left) + " and "@
            + kind_name(right) + " to a common type"@,
        ErrorKind::TextToInteger => "Cannot convert string to integer for bitwise operations"@,
        ErrorKind::CannotEquate { left, right } => "Cannot compare "@ + kind_name(left) + " and "@
            + kind_name(right) + " for equality"@,
        ErrorKind::CannotOrder { left, right } => "Cannot compare "@ + kind_name(left) + " and "@
            + kind_name(right),
        ErrorKind::AlreadyDeclared => "Variable '"@ + subject + "' already declared in this scope"@,
        ErrorKind::CannotExitGlobal => "Cannot exit global scope"@,
        ErrorKind::Immutable => "Cannot assign to immutable variable '"@ + subject + "'"@,
        ErrorKind::TypeMismatch { expected, found } => "Type mismatch: variable '"@ + subject
            + "' has type "@ + kind_name(expected) + ", cannot assign value of type "@ + kind_name(
            found,
        ),
        ErrorKind::NotFound => "Variable '"@ + subject + "' not found"@,
        ErrorKind::LeftOperandFailed => "Left operand evaluation failed"@,
        ErrorKind::RightOperandFailed => "Right operand evaluation failed"@,
        ErrorKind::OperandFailed => "Operand evaluation failed"@,
        ErrorKind::InvalidOperands { operator, left, right } => {
            let phrase = operands_phrase(operator);
            phrase.0 + kind_name(if phrase.2 { right } else { left }) + phrase.1 + kind_name(
                if phrase.2 { left } else { right },
            )
        },
        ErrorKind::DivisionByZero => "Division by zero"@,
        ErrorKind::ModuloByZero => "Modulo by zero"@,
        ErrorKind::Overflow => "Integer overflow"@,
        ErrorKind::ShiftOutOfRange => "Shift distance out of range"@,
        ErrorKind::IntegerOperandsRequired { operator } => integers_phrase(operator),
        ErrorKind::CannotNegate { operand } => "Cannot negate "@ + kind_name(operand),
        ErrorKind::InitializerFailed => "Failed to evaluate initializer for variable '"@ + subject
            + "'"@,
        ErrorKind::AssignmentFailed => "Failed to evaluate value for assignment to '"@ + subject
            + "'"@,
        ErrorKind::UnknownFunction => "Unknown function: '"@ + subject + "'"@,
    }
}

/// Joins four texts.
fn phrase(before: &str, first: &str, between: &str, second: &str) -> (r: String)
    ensures
        r@ == before@ + first@ + between@ + second@,
{
    let mut text = String::from_str(before);
    text.append(first);
    text.append(between);
    text.append(second);
    text
}

/// Puts a name between two texts.
fn about(before: &str, subject: &str, after: &str) -> (r: String)
    ensures
        r@ == before@ + subject@ + after@,
{
    let mut text = String::from_str(before);
    text.append(subject);
    text.append(after);
    text
}

impl ErrorKind {
    /// The message of an error of this kind about the name `subject`.
    pub fn message(&self, subject: &str) -> (r: String)
        ensures
            r@ == message_text(*self, subject@),
    {
        match *self {
            ErrorKind::CannotCoerce { left, right } => {
                let mut text = phrase("Cannot coerce ", name_of(left), " and ", name_of(right));
                text.append(" to a common type");
                text
            },
            ErrorKind::TextToInteger => String::from_str(
                "Cannot convert string to integer for bitwise operations",
            ),
            ErrorKind::CannotEquate { left, right } => {
                let mut text = phrase("Cannot compare ", name_of(left), " and ", name_of(right));
                text.append(" for equality");
                text
            },
            ErrorKind::CannotOrder { left, right } => phrase(
                "Cannot compare ",
                name_of(left),
                " and ",
                name_of(right),
            ),
            ErrorKind::AlreadyDeclared => about(
                "Variable '",
                subject,
                "' already declared in this scope",
            ),
            ErrorKind::CannotExitGlobal => String::from_str("Cannot exit global scope"),
            ErrorKind::Immutable => about("Cannot assign to immutable variable '", subject, "'"),
            ErrorKind::TypeMismatch { expected, found } => {
                let mut text = about("Type mismatch: variable '", subject, "' has type ");
                text.append(name_of(expected));
                text.append(", cannot assign value of type ");
                text.append(name_of(found));
                text
            },
            ErrorKind::NotFound => about("Variable '", subject, "' not found"),
            ErrorKind::LeftOperandFailed => String::from_str("Left operand evaluation failed"),
            ErrorKind::RightOperandFailed => String::from_str("Right operand evaluation failed"),
            ErrorKind::OperandFailed => String::from_str("Operand evaluation failed"),
            ErrorKind::InvalidOperands { operator, left, right } => match operator {
                ASTBinaryOperatorKind::Plus => phrase(
                    "Cannot add ",
                    name_of(left),
                    " and ",
                    name_of(right),
                ),
                ASTBinaryOperatorKind::Minus => phrase(
                    "Cannot subtract ",
                    name_of(right),
                    " from ",
                    name_of(left),
                ),
                ASTBinaryOperatorKind::Multiply => phrase(
                    "Cannot multiply ",
                    name_of(left),
                    " and ",
                    name_of(right),
                ),
                ASTBinaryOperatorKind::Divide => phrase(
                    "Cannot divide ",
                    name_of(left),
                    " by ",
                    name_of(right),
                ),
                ASTBinaryOperatorKind::Modulo => phrase(
                    "Cannot compute modulo of ",
                    name_of(left),
                    " and ",
                    name_of(right),
                ),
                ASTBinaryOperatorKind::Exponentiation => phrase(
                    "Cannot exponentiate ",
                    name_of(left),
                    " and ",
                    name_of(right),
                ),
                _ => phrase(
                    "Cannot apply the operator to ",
                    name_of(left),
                    " and ",
                    name_of(right),
                ),
            },
            ErrorKind::DivisionByZero => String::from_str("Division by zero"),
            ErrorKind::ModuloByZero => String::from_str("Modulo by zero"),
            ErrorKind::Overflow => String::from_str("Integer overflow"),
            ErrorKind::ShiftOutOfRange => String::from_str("Shift distance out of range"),
            ErrorKind::IntegerOperandsRequired { operator } => match operator {
                ASTBinaryOperatorKind::BitwiseAnd => String::from_str(
                    "Bitwise AND requires integer operands",
                ),
                ASTBinaryOperatorKind::BitwiseOr => String::from_str(
                    "Bitwise OR requires integer operands",
                ),
                ASTBinaryOperatorKind::BitwiseXor => String::from_str(
                    "Bitwise XOR requires integer operands",
                ),
                ASTBinaryOperatorKind::LeftShift => String::from_str(
                    "Left shift requires integer operands",
                ),
                ASTBinaryOperatorKind::RightShift => String::from_str(
                    "Right shift requires integer operands",
                ),
                _ => String::from_str("The operator requires integer operands"),
            },
            ErrorKind::CannotNegate { operand } => {
                let mut text = String::from_str("Cannot negate ");
                text.append(name_of(operand));
                text
            },
            ErrorKind::InitializerFailed => about(
                "Failed to evaluate initializer for variable '",
                subject,
                "'",
            ),
            ErrorKind::AssignmentFailed => about(
                "Failed to evaluate value for assignment to '",
                subject,
                "'",
            ),
            ErrorKind::UnknownFunction => about("Unknown function: '", subject, "'"),
        }
    }
}

impl EvalError {
    /// The message of the error.
    pub fn message(&self) -> (r: String)
        ensures
            r@ == message_text(self.kind, self.subject@),
    {
        self.kind.message(self.subject.as_str())
    }
}

} // verus!
