//! The evaluator: walks a syntax tree against a symbol table and produces a
//! value, or records errors.

use crate::ast::error::{error_views, text_views, ErrorKind, ErrorView, EvalError};
use crate::ast::float::{FloatBits, FloatOperation, FloatUnit};
use crate::ast::lexer::{scanned, token_views, tokenize, TokenView};
use crate::ast::parser::{parse_statement, significant, Parser};
use crate::ast::symbol_table::{
    assign_model, define_model, float_of, resolve, ScopeView, SymbolTable,
};
use crate::ast::text::same_text;
use crate::ast::types::{DataType, Value, ValueView};
use crate::ast::visitor::{visited_all, ASTVisitor};
use crate::ast::{
    assignment_view, binary_view, call_view, declaration_view, expression_views,
    lemma_view_of_kind, unary_view, ASTAssignment,
    ASTBinaryExpression, ASTBinaryOperatorKind, ASTExpression, ASTExpressionKind,
    ASTFunctionCallExpression, ASTIdentifierExpression, ASTNumberExpression,
    ASTParanthesizedExpression, ASTStatement, ASTStatementKind, ASTUnaryExpression,
    ASTUnaryOperatorKind, ASTVariableDeclaration, ExpressionView, StatementView,
};
use std::cmp::Ordering;
use vstd::arithmetic::div_mod::{
    lemma_div_nonincreasing, lemma_div_pos_is_pos, lemma_fundamental_div_mod, lemma_mod_pos_bound,
};
use vstd::arithmetic::power::pow;
use vstd::math::abs;
use vstd::prelude::*;

verus! {

/// Quotient of two integers, rounded towards zero.
pub open spec fn truncated_quotient(a: int, b: int) -> int
    recommends
        b != 0,
{
    if a == 0 {
        0
    } else if a > 0 && b > 0 {
        a / b
    } else if a < 0 && b < 0 {
        (-a) / (-b)
    } else if a < 0 {
        -((-a) / b)
    } else {
        -(a / (-b))
    }
}

/// Remainder of the division that rounds towards zero: it has the sign of the dividend.
pub open spec fn truncated_remainder(a: int, b: int) -> int
    recommends
        b != 0,
{
    if a == 0 {
        0
    } else if a > 0 && b > 0 {
        a % b
    } else if a < 0 && b < 0 {
        -((-a) % (-b))
    } else if a < 0 {
        -((-a) % b)
    } else {
        a % (-b)
    }
}

/// Whether an integer fits in 64 bits.
pub open spec fn fits(i: int) -> bool {
    i64::MIN <= i <= i64::MAX
}

/// An integer result: the integer where it fits in 64 bits, an overflow where it does not.
pub open spec fn integer_result(i: int) -> Result<ValueView, ErrorKind> {
    if fits(i) {
        Ok(ValueView::Integer(i as i64))
    } else {
        Err(ErrorKind::Overflow)
    }
}

/// Whether an operator is one of `+ - * / % **`.
pub open spec fn is_arithmetic(operator: ASTBinaryOperatorKind) -> bool {
    operator is Plus || operator is Minus || operator is Multiply || operator is Divide
        || operator is Modulo || operator is Exponentiation
}

/// Whether an operator is one of `& | ^ << >>`.
pub open spec fn is_bitwise(operator: ASTBinaryOperatorKind) -> bool {
    operator is BitwiseAnd || operator is BitwiseOr || operator is BitwiseXor
        || operator is LeftShift || operator is RightShift
}

/// Whether an operator is `==` or `!=`.
pub open spec fn is_equality(operator: ASTBinaryOperatorKind) -> bool {
    operator is Equal || operator is NotEqual
}

/// Whether an operator is one of `< > <= >=`.
pub open spec fn is_relational(operator: ASTBinaryOperatorKind) -> bool {
    operator is Less || operator is Greater || operator is LessEqual || operator is GreaterEqual
}

/// An arithmetic operator on two integers. Division and remainder round
/// towards zero and refuse a zero divisor; a power has a natural exponent.
pub open spec fn integer_arithmetic(operator: ASTBinaryOperatorKind, a: i64, b: i64) -> Result<
    ValueView,
    ErrorKind,
>
    recommends
        is_arithmetic(operator),
        operator is Exponentiation ==> b >= 0,
{
    match operator {
        ASTBinaryOperatorKind::Plus => integer_result(a + b),
        ASTBinaryOperatorKind::Minus => integer_result(a - b),
        ASTBinaryOperatorKind::Multiply => integer_result(a * b),
        ASTBinaryOperatorKind::Divide => if b == 0 {
            Err(ErrorKind::DivisionByZero)
        } else {
            integer_result(truncated_quotient(a as int, b as int))
        },
        ASTBinaryOperatorKind::Modulo => if b == 0 {
            Err(ErrorKind::ModuloByZero)
        } else if a == i64::MIN && b == -1 {
            Err(ErrorKind::Overflow)
        } else {
            integer_result(truncated_remainder(a as int, b as int))
        },
        _ => integer_result(pow(a as int, b as nat)),
    }
}

/// An arithmetic operator on two values, where the float unit has no part in
/// the result; `None` where it has. Operands are first brought to a common
/// type. Two integers give an integer, but a power with a negative exponent
/// is a float. With a float among the operands the result is a float, but a
/// division or remainder by a float zero is an error. `+` joins two texts,
/// and a text with the text form of the other operand.
pub open spec fn arithmetic(operator: ASTBinaryOperatorKind, left: ValueView, right: ValueView)
    -> Option<Result<ValueView, ErrorKind>>
    recommends
        is_arithmetic(operator),
{
    let mismatch = Some(
        Err::<ValueView, ErrorKind>(
            ErrorKind::InvalidOperands {
                operator,
                left: left.data_type(),
                right: right.data_type(),
            },
        ),
    );
    if !left.coercible(right) {
        Some(Err(ErrorKind::CannotCoerce { left: left.data_type(), right: right.data_type() }))
    } else if left is String || right is String {
        if operator is Plus {
            match (left.text(), right.text()) {
                (Some(a), Some(b)) => Some(Ok(ValueView::String(a + b))),
                _ => None,
            }
        } else {
            mismatch
        }
    } else {
        match (left, right) {
            (ValueView::Integer(a), ValueView::Integer(b)) => {
                if operator is Exponentiation && b < 0 {
                    None
                } else {
                    Some(integer_arithmetic(operator, a, b))
                }
            },
            (ValueView::Boolean(_), ValueView::Boolean(_)) => mismatch,
            (_, ValueView::Float(b)) => {
                if operator is Divide && b.is_zero() {
                    Some(Err(ErrorKind::DivisionByZero))
                } else if operator is Modulo && b.is_zero() {
                    Some(Err(ErrorKind::ModuloByZero))
                } else {
                    None
                }
            },
            _ => None,
        }
    }
}

/// A bitwise operator on two 64-bit integers. A shift keeps the bits that
/// stay inside the 64; its distance is from 0 to 63.
pub open spec fn integer_bitwise(operator: ASTBinaryOperatorKind, a: i64, b: i64) -> Result<
    ValueView,
    ErrorKind,
>
    recommends
        is_bitwise(operator),
{
    match operator {
        ASTBinaryOperatorKind::BitwiseAnd => Ok(ValueView::Integer(a & b)),
        ASTBinaryOperatorKind::BitwiseOr => Ok(ValueView::Integer(a | b)),
        ASTBinaryOperatorKind::BitwiseXor => Ok(ValueView::Integer(a ^ b)),
        ASTBinaryOperatorKind::LeftShift => if 0 <= b < 64 {
            Ok(ValueView::Integer(a << b))
        } else {
            Err(ErrorKind::ShiftOutOfRange)
        },
        _ => if 0 <= b < 64 {
            Ok(ValueView::Integer(a >> b))
        } else {
            Err(ErrorKind::ShiftOutOfRange)
        },
    }
}

/// A bitwise operator on two values, where the float unit has no part in the
/// result; `None` where it has. A text has no integer; a float is cut to its
/// integer part by the float unit.
pub open spec fn bitwise(operator: ASTBinaryOperatorKind, left: ValueView, right: ValueView)
    -> Option<Result<ValueView, ErrorKind>>
    recommends
        is_bitwise(operator),
{
    if left is String || right is String {
        Some(Err(ErrorKind::IntegerOperandsRequired { operator }))
    } else {
        match (left.integer(), right.integer()) {
            (Some(Ok(a)), Some(Ok(b))) => Some(integer_bitwise(operator, a, b)),
            _ => None,
        }
    }
}

/// What a relational operator makes of an order.
pub open spec fn relation_holds(operator: ASTBinaryOperatorKind, order: Ordering) -> bool
    recommends
        is_relational(operator),
{
    match operator {
        ASTBinaryOperatorKind::Less => order == Ordering::Less,
        ASTBinaryOperatorKind::Greater => order == Ordering::Greater,
        ASTBinaryOperatorKind::LessEqual => order != Ordering::Greater,
        _ => order != Ordering::Less,
    }
}

/// A comparison of two values, where the float unit has no part in the
/// result; `None` where it has.
pub open spec fn comparison(operator: ASTBinaryOperatorKind, left: ValueView, right: ValueView)
    -> Option<Result<ValueView, ErrorKind>>
    recommends
        is_equality(operator) || is_relational(operator),
{
    if is_equality(operator) {
        match left.equality(right) {
            Some(Ok(equal)) => Some(
                Ok(ValueView::Boolean(if operator is Equal { equal } else { !equal })),
            ),
            Some(Err(error)) => Some(Err(error)),
            None => None,
        }
    } else {
        match left.order(right) {
            Some(Ok(order)) => Some(Ok(ValueView::Boolean(relation_holds(operator, order)))),
            Some(Err(error)) => Some(Err(error)),
            None => None,
        }
    }
}

/// A binary operator on the values of its two operands, where the float unit
/// has no part in the result; `None` where it has. The logical operators,
/// which may leave their right operand unevaluated, apply truthiness.
pub open spec fn binary_result(operator: ASTBinaryOperatorKind, left: ValueView, right: ValueView)
    -> Option<Result<ValueView, ErrorKind>> {
    if is_arithmetic(operator) {
        arithmetic(operator, left, right)
    } else if is_bitwise(operator) {
        bitwise(operator, left, right)
    } else if is_equality(operator) || is_relational(operator) {
        comparison(operator, left, right)
    } else if operator is LogicalAnd {
        Some(Ok(ValueView::Boolean(left.truthy() && right.truthy())))
    } else {
        Some(Ok(ValueView::Boolean(left.truthy() || right.truthy())))
    }
}

/// A unary operator on the value of its operand: `+` leaves it, `-` negates a
/// number, `!` gives the complement of its truthiness.
pub open spec fn unary_result(operator: ASTUnaryOperatorKind, operand: ValueView) -> Result<
    ValueView,
    ErrorKind,
> {
    match operator {
        ASTUnaryOperatorKind::Plus => Ok(operand),
        ASTUnaryOperatorKind::Minus => match operand {
            ValueView::Integer(i) => integer_result(-i),
            ValueView::Float(f) => Ok(ValueView::Float(f.negated())),
            _ => Err(ErrorKind::CannotNegate { operand: operand.data_type() }),
        },
        ASTUnaryOperatorKind::LogicalNot => Ok(ValueView::Boolean(!operand.truthy())),
    }
}

/// Whether `result` can be what an arithmetic operator makes of two values,
/// whatever the float unit answers. Where the unit has no part, the result
/// is that of [`arithmetic`]. Where it has, the result is a float; but `+`
/// with a text gives a text, and the division or remainder of a float by an
/// integer may find the divisor zero.
pub open spec fn arithmetic_admits(
    operator: ASTBinaryOperatorKind,
    left: ValueView,
    right: ValueView,
    result: Result<ValueView, ErrorKind>,
) -> bool
    recommends
        is_arithmetic(operator),
{
    match arithmetic(operator, left, right) {
        Some(exact) => result == exact,
        None => if left is String || right is String {
            result is Ok && result->Ok_0 is String
        } else if left is Float && right is Integer && operator is Divide {
            (result is Ok && result->Ok_0 is Float) || result == Err::<ValueView, ErrorKind>(
                ErrorKind::DivisionByZero,
            )
        } else if left is Float && right is Integer && operator is Modulo {
            (result is Ok && result->Ok_0 is Float) || result == Err::<ValueView, ErrorKind>(
                ErrorKind::ModuloByZero,
            )
        } else {
            result is Ok && result->Ok_0 is Float
        },
    }
}

/// Whether `result` can be what a bitwise operator makes of two values,
/// whatever the float unit answers. Where the unit has no part, the result
/// is that of [`bitwise`]. Where it has, the result is an integer; but a
/// shift may find its distance out of range.
pub open spec fn bitwise_admits(
    operator: ASTBinaryOperatorKind,
    left: ValueView,
    right: ValueView,
    result: Result<ValueView, ErrorKind>,
) -> bool
    recommends
        is_bitwise(operator),
{
    match bitwise(operator, left, right) {
        Some(exact) => result == exact,
        None => (result is Ok && result->Ok_0 is Integer) || ((operator is LeftShift
            || operator is RightShift) && result == Err::<ValueView, ErrorKind>(
            ErrorKind::ShiftOutOfRange,
        )),
    }
}

/// Whether `result` can be what a comparison makes of two values, whatever
/// the float unit answers. Where the unit has no part, the result is that of
/// [`comparison`]; where it has, the result is a truth value.
pub open spec fn comparison_admits(
    operator: ASTBinaryOperatorKind,
    left: ValueView,
    right: ValueView,
    result: Result<ValueView, ErrorKind>,
) -> bool
    recommends
        is_equality(operator) || is_relational(operator),
{
    match comparison(operator, left, right) {
        Some(exact) => result == exact,
        None => result is Ok && result->Ok_0 is Boolean,
    }
}

/// Whether `result` can be what a binary operator makes of the values of its
/// two operands, whatever the float unit answers.
pub open spec fn binary_admits(
    operator: ASTBinaryOperatorKind,
    left: ValueView,
    right: ValueView,
    result: Result<ValueView, ErrorKind>,
) -> bool {
    if is_arithmetic(operator) {
        arithmetic_admits(operator, left, right, result)
    } else if is_bitwise(operator) {
        bitwise_admits(operator, left, right, result)
    } else if is_equality(operator) || is_relational(operator) {
        comparison_admits(operator, left, right, result)
    } else {
        Some(result) == binary_result(operator, left, right)
    }
}

/// The outcome of an operation as contracts see it.
pub open spec fn result_view(result: Result<Value, ErrorKind>) -> Result<ValueView, ErrorKind> {
    match result {
        Ok(value) => Ok(value@),
        Err(error) => Err(error),
    }
}

/// In a power of a base of magnitude two or more, a greater exponent gives a
/// greater magnitude: at least twice as great.
proof fn lemma_power_grows(a: int, i: nat, j: nat)
    requires
        a >= 2 || a <= -2,
        i <= j,
    ensures
        vstd::math::abs(pow(a, i)) >= 1,
        vstd::math::abs(pow(a, j)) >= vstd::math::abs(pow(a, i)),
        i < j ==> vstd::math::abs(pow(a, j)) >= 2 * vstd::math::abs(pow(a, i)),
    decreases j,
{
    reveal(pow);
    if j == 0 {
    } else if i == j {
        lemma_power_grows(a, (i - 1) as nat, (j - 1) as nat);
        let x = pow(a, (j - 1) as nat);
        assert(vstd::math::abs(a * x) >= 2 * vstd::math::abs(x)) by (nonlinear_arith)
            requires
                a >= 2 || a <= -2,
        ;
    } else {
        lemma_power_grows(a, i, (j - 1) as nat);
        let x = pow(a, (j - 1) as nat);
        assert(vstd::math::abs(a * x) >= 2 * vstd::math::abs(x)) by (nonlinear_arith)
            requires
                a >= 2 || a <= -2,
        ;
    }
}

/// Raises an integer to a natural power.
pub fn integer_power(base: i64, exponent: i64) -> (r: Result<i64, ErrorKind>)
    requires
        exponent >= 0,
    ensures
        fits(pow(base as int, exponent as nat)) ==> r == Ok::<i64, ErrorKind>(
            pow(base as int, exponent as nat) as i64,
        ),
        !fits(pow(base as int, exponent as nat)) ==> r == Err::<i64, ErrorKind>(
            ErrorKind::Overflow,
        ),
{
    reveal(pow);
    if exponent == 0 {
        return Ok(1);
    }
    if base == 0 {
        proof {
            vstd::arithmetic::power::lemma0_pow(exponent as nat);
        }
        return Ok(0);
    }
    if base == 1 {
        proof {
            vstd::arithmetic::power::lemma1_pow(exponent as nat);
        }
        return Ok(1);
    }
    if base == -1 {
        proof {
            lemma_power_of_minus_one(exponent as nat);
        }
        return Ok(
            if exponent % 2 == 0 {
                1
            } else {
                -1
            },
        );
    }
    let mut power: i64 = 1;
    let mut done: i64 = 0;
    while done < exponent
        invariant
            base >= 2 || base <= -2,
            0 <= done <= exponent,
            power == pow(base as int, done as nat),
        decreases exponent - done,
    {
        proof {
            reveal(pow);
            assert(pow(base as int, (done + 1) as nat) == base * pow(base as int, done as nat));
            assert(power * base == base * power) by (nonlinear_arith);
        }
        match power.checked_mul(base) {
            Some(next) => {
                power = next;
                done += 1;
            },
            None => {
                proof {
                    lemma_power_grows(base as int, (done + 1) as nat, exponent as nat);
                }
                return Err(ErrorKind::Overflow);
            },
        }
    }
    Ok(power)
}

/// The powers of minus one alternate between one and minus one.
proof fn lemma_power_of_minus_one(e: nat)
    ensures
        pow(-1, e) == (if e % 2 == 0 { 1int } else { -1int }),
    decreases e,
{
    reveal(pow);
    if e > 0 {
        lemma_power_of_minus_one((e - 1) as nat);
    }
}


/// Applies an arithmetic operator to two integers.
pub fn apply_integer_arithmetic(operator: ASTBinaryOperatorKind, a: i64, b: i64) -> (r: Result<
    Value,
    ErrorKind,
>)
    requires
        is_arithmetic(operator),
        operator is Exponentiation ==> b >= 0,
    ensures
        result_view(r) == integer_arithmetic(operator, a, b),
{
    let computed = match operator {
        ASTBinaryOperatorKind::Plus => a.checked_add(b),
        ASTBinaryOperatorKind::Minus => a.checked_sub(b),
        ASTBinaryOperatorKind::Multiply => a.checked_mul(b),
        ASTBinaryOperatorKind::Divide => {
            if b == 0 {
                return Err(ErrorKind::DivisionByZero);
            }
            a.checked_div(b)
        },
        ASTBinaryOperatorKind::Modulo => {
            if b == 0 {
                return Err(ErrorKind::ModuloByZero);
            }
            a.checked_rem(b)
        },
        _ => {
            return match integer_power(a, b) {
                Ok(power) => Ok(Value::Integer(power)),
                Err(error) => Err(error),
            };
        },
    };
    match computed {
        Some(value) => Ok(Value::Integer(value)),
        None => Err(ErrorKind::Overflow),
    }
}

/// The float operation that an arithmetic operator stands for.
pub open spec fn float_operation_of(operator: ASTBinaryOperatorKind) -> FloatOperation
    recommends
        is_arithmetic(operator),
{
    match operator {
        ASTBinaryOperatorKind::Plus => FloatOperation::Add,
        ASTBinaryOperatorKind::Minus => FloatOperation::Subtract,
        ASTBinaryOperatorKind::Multiply => FloatOperation::Multiply,
        ASTBinaryOperatorKind::Divide => FloatOperation::Divide,
        ASTBinaryOperatorKind::Modulo => FloatOperation::Remainder,
        _ => FloatOperation::Power,
    }
}

/// The float operation that an arithmetic operator stands for.
fn float_operation(operator: ASTBinaryOperatorKind) -> (r: FloatOperation)
    requires
        is_arithmetic(operator),
    ensures
        r == float_operation_of(operator),
{
    match operator {
        ASTBinaryOperatorKind::Plus => FloatOperation::Add,
        ASTBinaryOperatorKind::Minus => FloatOperation::Subtract,
        ASTBinaryOperatorKind::Multiply => FloatOperation::Multiply,
        ASTBinaryOperatorKind::Divide => FloatOperation::Divide,
        ASTBinaryOperatorKind::Modulo => FloatOperation::Remainder,
        _ => FloatOperation::Power,
    }
}

/// Applies an arithmetic operator to two values.
pub fn apply_arithmetic<F: FloatUnit>(
    operator: ASTBinaryOperatorKind,
    left: &Value,
    right: &Value,
    unit: &F,
) -> (r: Result<Value, ErrorKind>)
    requires
        is_arithmetic(operator),
    ensures
        arithmetic(operator, left@, right@) matches Some(result) ==> result_view(r) == result,
        arithmetic_admits(operator, left@, right@, result_view(r)),
{
    let pair = match Value::coerce_to_common_type(left, right, unit) {
        Ok(pair) => pair,
        Err(error) => {
            return Err(error);
        },
    };
    match pair {
        (Value::Integer(a), Value::Integer(b)) => {
            if b < 0 && matches!(operator, ASTBinaryOperatorKind::Exponentiation) {
                Ok(
                    Value::Float(
                        unit.compute(
                            FloatOperation::Power,
                            unit.from_integer(a),
                            unit.from_integer(b),
                        ),
                    ),
                )
            } else {
                apply_integer_arithmetic(operator, a, b)
            }
        },
        (Value::Float(a), Value::Float(b)) => {
            if b.zero() && matches!(operator, ASTBinaryOperatorKind::Divide) {
                Err(ErrorKind::DivisionByZero)
            } else if b.zero() && matches!(operator, ASTBinaryOperatorKind::Modulo) {
                Err(ErrorKind::ModuloByZero)
            } else {
                Ok(Value::Float(unit.compute(float_operation(operator), a, b)))
            }
        },
        (Value::String(a), Value::String(b)) => {
            if matches!(operator, ASTBinaryOperatorKind::Plus) {
                Ok(Value::String(a.concat(b.as_str())))
            } else {
                Err(
                    ErrorKind::InvalidOperands {
                        operator,
                        left: left.get_type(),
                        right: right.get_type(),
                    },
                )
            }
        },
        _ => Err(
            ErrorKind::InvalidOperands { operator, left: left.get_type(), right: right.get_type() },
        ),
    }
}

/// Applies a bitwise operator to two 64-bit integers.
pub fn apply_integer_bitwise(operator: ASTBinaryOperatorKind, a: i64, b: i64) -> (r: Result<
    Value,
    ErrorKind,
>)
    requires
        is_bitwise(operator),
    ensures
        result_view(r) == integer_bitwise(operator, a, b),
{
    match operator {
        ASTBinaryOperatorKind::BitwiseAnd => Ok(Value::Integer(a & b)),
        ASTBinaryOperatorKind::BitwiseOr => Ok(Value::Integer(a | b)),
        ASTBinaryOperatorKind::BitwiseXor => Ok(Value::Integer(a ^ b)),
        ASTBinaryOperatorKind::LeftShift => {
            if 0 <= b && b < 64 {
                Ok(Value::Integer(a << b))
            } else {
                Err(ErrorKind::ShiftOutOfRange)
            }
        },
        _ => {
            if 0 <= b && b < 64 {
                Ok(Value::Integer(a >> b))
            } else {
                Err(ErrorKind::ShiftOutOfRange)
            }
        },
    }
}

/// Applies a bitwise operator to two values.
pub fn apply_bitwise<F: FloatUnit>(
    operator: ASTBinaryOperatorKind,
    left: &Value,
    right: &Value,
    unit: &F,
) -> (r: Result<Value, ErrorKind>)
    requires
        is_bitwise(operator),
    ensures
        bitwise(operator, left@, right@) matches Some(result) ==> result_view(r) == result,
        bitwise_admits(operator, left@, right@, result_view(r)),
{
    match (left.to_integer(unit), right.to_integer(unit)) {
        (Ok(a), Ok(b)) => apply_integer_bitwise(operator, a, b),
        _ => Err(ErrorKind::IntegerOperandsRequired { operator }),
    }
}

/// Applies a comparison to two values.
pub fn apply_comparison<F: FloatUnit>(
    operator: ASTBinaryOperatorKind,
    left: &Value,
    right: &Value,
    unit: &F,
) -> (r: Result<Value, ErrorKind>)
    requires
        is_equality(operator) || is_relational(operator),
    ensures
        comparison(operator, left@, right@) matches Some(result) ==> result_view(r) == result,
        comparison_admits(operator, left@, right@, result_view(r)),
{
    match operator {
        ASTBinaryOperatorKind::Equal => match left.equals(right, unit) {
            Ok(equal) => Ok(Value::Boolean(equal)),
            Err(error) => Err(error),
        },
        ASTBinaryOperatorKind::NotEqual => match left.equals(right, unit) {
            Ok(equal) => Ok(Value::Boolean(!equal)),
            Err(error) => Err(error),
        },
        _ => match left.compare(right, unit) {
            Ok(order) => Ok(Value::Boolean(relation_of(operator, order))),
            Err(error) => Err(error),
        },
    }
}

/// What a relational operator makes of an order.
fn relation_of(operator: ASTBinaryOperatorKind, order: Ordering) -> (r: bool)
    requires
        is_relational(operator),
    ensures
        r == relation_holds(operator, order),
{
    match operator {
        ASTBinaryOperatorKind::Less => matches!(order, Ordering::Less),
        ASTBinaryOperatorKind::Greater => matches!(order, Ordering::Greater),
        ASTBinaryOperatorKind::LessEqual => !matches!(order, Ordering::Greater),
        _ => !matches!(order, Ordering::Less),
    }
}

/// Applies a binary operator to the values of its two operands.
pub fn apply_binary<F: FloatUnit>(
    operator: ASTBinaryOperatorKind,
    left: &Value,
    right: &Value,
    unit: &F,
) -> (r: Result<Value, ErrorKind>)
    ensures
        binary_result(operator, left@, right@) matches Some(result) ==> result_view(r) == result,
        binary_admits(operator, left@, right@, result_view(r)),
{
    match operator {
        ASTBinaryOperatorKind::Plus
        | ASTBinaryOperatorKind::Minus
        | ASTBinaryOperatorKind::Multiply
        | ASTBinaryOperatorKind::Divide
        | ASTBinaryOperatorKind::Modulo
        | ASTBinaryOperatorKind::Exponentiation => apply_arithmetic(operator, left, right, unit),
        ASTBinaryOperatorKind::BitwiseAnd
        | ASTBinaryOperatorKind::BitwiseOr
        | ASTBinaryOperatorKind::BitwiseXor
        | ASTBinaryOperatorKind::LeftShift
        | ASTBinaryOperatorKind::RightShift => apply_bitwise(operator, left, right, unit),
        ASTBinaryOperatorKind::Equal
        | ASTBinaryOperatorKind::NotEqual
        | ASTBinaryOperatorKind::Less
        | ASTBinaryOperatorKind::Greater
        | ASTBinaryOperatorKind::LessEqual
        | ASTBinaryOperatorKind::GreaterEqual => apply_comparison(operator, left, right, unit),
        ASTBinaryOperatorKind::LogicalAnd => Ok(
            Value::Boolean(left.to_boolean() && right.to_boolean()),
        ),
        ASTBinaryOperatorKind::LogicalOr => Ok(
            Value::Boolean(left.to_boolean() || right.to_boolean()),
        ),
    }
}

/// Applies a unary operator to the value of its operand.
pub fn apply_unary(operator: ASTUnaryOperatorKind, operand: Value) -> (r: Result<Value, ErrorKind>)
    ensures
        result_view(r) == unary_result(operator, operand@),
{
    match operator {
        ASTUnaryOperatorKind::Plus => Ok(operand),
        ASTUnaryOperatorKind::Minus => match operand {
            Value::Integer(i) => match 0i64.checked_sub(i) {
                Some(negated) => Ok(Value::Integer(negated)),
                None => Err(ErrorKind::Overflow),
            },
            Value::Float(f) => Ok(Value::Float(f.neg())),
            other => Err(ErrorKind::CannotNegate { operand: other.get_type() }),
        },
        ASTUnaryOperatorKind::LogicalNot => Ok(Value::Boolean(!operand.to_boolean())),
    }
}


/// What the evaluation of an expression yields: a value or none, the errors
/// it records, and the lines it prints.
pub struct Outcome {
    pub value: Option<ValueView>,
    pub errors: Seq<ErrorView>,
    pub output: Seq<Seq<char>>,
}

/// What the evaluation of the arguments of `print` yields: the line made of
/// the text forms of their values, the number of values in it, and the
/// errors and lines of the arguments themselves.
pub struct PrintOutcome {
    pub line: Seq<char>,
    pub count: nat,
    pub errors: Seq<ErrorView>,
    pub output: Seq<Seq<char>>,
}

/// An outcome without errors and output.
pub open spec fn plain(value: ValueView) -> Outcome {
    Outcome { value: Some(value), errors: Seq::empty(), output: Seq::empty() }
}

/// The outcome of an operation behind the evaluation of its operands: the
/// value of a success, or no value and one more error.
pub open spec fn conclude(
    result: Result<ValueView, ErrorKind>,
    errors: Seq<ErrorView>,
    output: Seq<Seq<char>>,
) -> Outcome {
    match result {
        Ok(value) => Outcome { value: Some(value), errors, output },
        Err(kind) => Outcome { value: None, errors: errors.push((kind, Seq::empty())), output },
    }
}

/// The outcome of evaluating an expression in given scopes, where the float
/// unit has no part in it; `None` where it has.
///
/// A logical operator evaluates its right operand only where the left one
/// does not decide. Any other binary operator evaluates the left operand,
/// then the right one, and records an error for the first that yields no
/// value. `print` evaluates its arguments in order and prints one line; any
/// other function is unknown.
pub open spec fn evaluate(expression: ExpressionView, scopes: Seq<ScopeView>) -> Option<Outcome>
    decreases expression,
{
    match expression {
        ExpressionView::Literal(value) => Some(plain(value)),
        ExpressionView::Parenthesized(inner) => evaluate(*inner, scopes),
        ExpressionView::Identifier(name) => match resolve(scopes, name) {
            Some(symbol) => Some(plain(symbol.value)),
            None => Some(
                Outcome {
                    value: None,
                    errors: seq![(ErrorKind::NotFound, name)],
                    output: Seq::empty(),
                },
            ),
        },
        ExpressionView::Unary { operator, token, operand } => match evaluate(*operand, scopes) {
            None => None,
            Some(inner) => match inner.value {
                None => Some(
                    conclude(Err(ErrorKind::OperandFailed), inner.errors, inner.output),
                ),
                Some(value) => Some(
                    conclude(unary_result(operator, value), inner.errors, inner.output),
                ),
            },
        },
        ExpressionView::Binary { left, operator, token, right } => match evaluate(*left, scopes) {
            None => None,
            Some(first) => match first.value {
                None => if operator is LogicalAnd || operator is LogicalOr {
                    Some(first)
                } else {
                    Some(conclude(Err(ErrorKind::LeftOperandFailed), first.errors, first.output))
                },
                Some(left_value) => if operator is LogicalAnd && !left_value.truthy() {
                    Some(Outcome { value: Some(ValueView::Boolean(false)), ..first })
                } else if operator is LogicalOr && left_value.truthy() {
                    Some(Outcome { value: Some(ValueView::Boolean(true)), ..first })
                } else {
                    match evaluate(*right, scopes) {
                        None => None,
                        Some(second) => {
                            let errors = first.errors + second.errors;
                            let output = first.output + second.output;
                            match second.value {
                                None => if operator is LogicalAnd || operator is LogicalOr {
                                    Some(Outcome { value: None, errors, output })
                                } else {
                                    Some(
                                        conclude(
                                            Err(ErrorKind::RightOperandFailed),
                                            errors,
                                            output,
                                        ),
                                    )
                                },
                                Some(right_value) => match binary_result(
                                    operator,
                                    left_value,
                                    right_value,
                                ) {
                                    None => None,
                                    Some(result) => Some(conclude(result, errors, output)),
                                },
                            }
                        },
                    }
                },
            },
        },
        ExpressionView::FunctionCall { name, arguments } => if name == "print"@ {
            match print_arguments(arguments, scopes) {
                None => None,
                Some(printed) => Some(
                    Outcome {
                        value: None,
                        errors: printed.errors,
                        output: printed.output.push(printed.line),
                    },
                ),
            }
        } else {
            Some(
                Outcome {
                    value: None,
                    errors: seq![(ErrorKind::UnknownFunction, name)],
                    output: Seq::empty(),
                },
            )
        },
    }
}

/// The outcome of evaluating the arguments of `print` in order. The line
/// holds the text form of each value, with one space between two; an
/// argument without a value adds nothing to the line.
pub open spec fn print_arguments(arguments: Seq<ExpressionView>, scopes: Seq<ScopeView>) -> Option<
    PrintOutcome,
>
    decreases arguments,
{
    if arguments.len() == 0 {
        Some(
            PrintOutcome {
                line: Seq::empty(),
                count: 0,
                errors: Seq::empty(),
                output: Seq::empty(),
            },
        )
    } else {
        match print_arguments(arguments.drop_last(), scopes) {
            None => None,
            Some(before) => match evaluate(arguments.last(), scopes) {
                None => None,
                Some(last) => {
                    let errors = before.errors + last.errors;
                    let output = before.output + last.output;
                    match last.value {
                        None => Some(PrintOutcome { errors, output, ..before }),
                        Some(value) => match value.text() {
                            None => None,
                            Some(text) => Some(
                                PrintOutcome {
                                    line: if before.count == 0 {
                                        text
                                    } else {
                                        before.line + seq![' '] + text
                                    },
                                    count: before.count + 1,
                                    errors,
                                    output,
                                },
                            ),
                        },
                    }
                },
            },
        }
    }
}

/// The outcome of a unary operator behind the evaluation of its operand.
pub open spec fn unary_outcome(operator: ASTUnaryOperatorKind, inner: Outcome) -> Outcome {
    match inner.value {
        None => conclude(Err(ErrorKind::OperandFailed), inner.errors, inner.output),
        Some(value) => conclude(unary_result(operator, value), inner.errors, inner.output),
    }
}

/// The outcome of a binary operator that needs no right operand: its left
/// operand yields no value, or decides a logical operator. `None` where the
/// right operand is evaluated.
pub open spec fn left_outcome(operator: ASTBinaryOperatorKind, first: Outcome) -> Option<Outcome> {
    match first.value {
        None => if operator is LogicalAnd || operator is LogicalOr {
            Some(first)
        } else {
            Some(conclude(Err(ErrorKind::LeftOperandFailed), first.errors, first.output))
        },
        Some(value) => if operator is LogicalAnd && !value.truthy() {
            Some(Outcome { value: Some(ValueView::Boolean(false)), ..first })
        } else if operator is LogicalOr && value.truthy() {
            Some(Outcome { value: Some(ValueView::Boolean(true)), ..first })
        } else {
            None
        },
    }
}

/// The outcome of a binary operator behind the evaluation of both operands,
/// of which the left one has a value; `result` is what the operator makes of
/// the two values, where the right operand has one too.
pub open spec fn both_outcome(
    operator: ASTBinaryOperatorKind,
    first: Outcome,
    second: Outcome,
    result: Result<ValueView, ErrorKind>,
) -> Outcome {
    let errors = first.errors + second.errors;
    let output = first.output + second.output;
    match second.value {
        None => if operator is LogicalAnd || operator is LogicalOr {
            Outcome { value: None, errors, output }
        } else {
            conclude(Err(ErrorKind::RightOperandFailed), errors, output)
        },
        Some(_) => conclude(result, errors, output),
    }
}

/// Whether `outcome` is what a binary operator yields behind the outcomes
/// `first` and `second` of its operands, with `result` admitted of their values.
pub open spec fn finishes(
    operator: ASTBinaryOperatorKind,
    first: Outcome,
    second: Outcome,
    result: Result<ValueView, ErrorKind>,
    outcome: Outcome,
) -> bool {
    &&& first.value is Some
    &&& second.value is Some ==> binary_admits(
        operator,
        first.value->0,
        second.value->0,
        result,
    )
    &&& outcome == both_outcome(operator, first, second, result)
}

/// What `print` has made of its arguments behind one more argument, whose
/// value, where it has one, has the text form `text`.
pub open spec fn print_step(before: PrintOutcome, last: Outcome, text: Seq<char>) -> PrintOutcome {
    let errors = before.errors + last.errors;
    let output = before.output + last.output;
    match last.value {
        None => PrintOutcome { errors, output, ..before },
        Some(_) => PrintOutcome {
            line: if before.count == 0 {
                text
            } else {
                before.line + seq![' '] + text
            },
            count: before.count + 1,
            errors,
            output,
        },
    }
}

/// Whether `text` can be the text form of a value, whatever the float unit
/// answers: the text of [`ValueView::text`], and any text for a float.
pub open spec fn text_admits(value: Option<ValueView>, text: Seq<char>) -> bool {
    value matches Some(v) ==> (v.text() matches Some(exact) ==> text == exact)
}

/// Whether `printed` is what `print` makes of `before` and one more argument
/// with the outcome `last`.
pub open spec fn prints_next(
    before: PrintOutcome,
    last: Outcome,
    text: Seq<char>,
    printed: PrintOutcome,
) -> bool {
    text_admits(last.value, text) && printed == print_step(before, last, text)
}

/// Whether `outcome` can be the outcome of evaluating an expression in given
/// scopes, whatever the float unit answers. The walk is that of
/// [`evaluate`]; where the unit takes part in a value, any value that the
/// operator admits stands for it.
pub open spec fn admits(expression: ExpressionView, scopes: Seq<ScopeView>, outcome: Outcome) -> bool
    decreases expression,
{
    match expression {
        ExpressionView::Literal(value) => outcome == plain(value),
        ExpressionView::Parenthesized(inner) => admits(*inner, scopes, outcome),
        ExpressionView::Identifier(name) => Some(outcome) == evaluate(expression, scopes),
        ExpressionView::Unary { operator, token, operand } => exists|inner: Outcome|
            admits(*operand, scopes, inner) && outcome == #[trigger] unary_outcome(
                operator,
                inner,
            ),
        ExpressionView::Binary { left, operator, token, right } => exists|first: Outcome|
            admits(*left, scopes, first) && match #[trigger] left_outcome(operator, first) {
                Some(decided) => outcome == decided,
                None => exists|second: Outcome, result: Result<ValueView, ErrorKind>|
                    admits(*right, scopes, second) && #[trigger] finishes(
                        operator,
                        first,
                        second,
                        result,
                        outcome,
                    ),
            },
        ExpressionView::FunctionCall { name, arguments } => if name == "print"@ {
            exists|printed: PrintOutcome|
                print_admits(arguments, scopes, printed) && outcome == #[trigger] print_outcome(
                    printed,
                )
        } else {
            Some(outcome) == evaluate(expression, scopes)
        },
    }
}

/// The outcome of `print` behind the evaluation of its arguments: no value,
/// and one more line.
pub open spec fn print_outcome(printed: PrintOutcome) -> Outcome {
    Outcome { value: None, errors: printed.errors, output: printed.output.push(printed.line) }
}

/// Whether `printed` can be what `print` makes of its arguments, whatever
/// the float unit answers.
pub open spec fn print_admits(
    arguments: Seq<ExpressionView>,
    scopes: Seq<ScopeView>,
    printed: PrintOutcome,
) -> bool
    decreases arguments,
{
    if arguments.len() == 0 {
        Some(printed) == print_arguments(arguments, scopes)
    } else {
        exists|before: PrintOutcome, last: Outcome, text: Seq<char>|
            print_admits(arguments.drop_last(), scopes, before) && admits(
                arguments.last(),
                scopes,
                last,
            ) && #[trigger] prints_next(before, last, text, printed)
    }
}

/// A binary expression admits what its left operand decides.
pub proof fn lemma_admits_left(
    left: ExpressionView,
    operator: ASTBinaryOperatorKind,
    token: TokenView,
    right: ExpressionView,
    scopes: Seq<ScopeView>,
    first: Outcome,
    outcome: Outcome,
)
    requires
        admits(left, scopes, first),
        left_outcome(operator, first) == Some(outcome),
    ensures
        admits(
            ExpressionView::Binary { left: Box::new(left), operator, token, right: Box::new(right) },
            scopes,
            outcome,
        ),
{
}

/// A binary expression admits what its operator makes of both operands.
pub proof fn lemma_admits_both(
    left: ExpressionView,
    operator: ASTBinaryOperatorKind,
    token: TokenView,
    right: ExpressionView,
    scopes: Seq<ScopeView>,
    first: Outcome,
    second: Outcome,
    result: Result<ValueView, ErrorKind>,
    outcome: Outcome,
)
    requires
        admits(left, scopes, first),
        left_outcome(operator, first) is None,
        admits(right, scopes, second),
        finishes(operator, first, second, result, outcome),
    ensures
        admits(
            ExpressionView::Binary { left: Box::new(left), operator, token, right: Box::new(right) },
            scopes,
            outcome,
        ),
{
}

/// `print` admits one more argument behind those it has evaluated.
pub proof fn lemma_print_admits_next(
    arguments: Seq<ExpressionView>,
    scopes: Seq<ScopeView>,
    before: PrintOutcome,
    last: Outcome,
    text: Seq<char>,
    printed: PrintOutcome,
)
    requires
        arguments.len() > 0,
        print_admits(arguments.drop_last(), scopes, before),
        admits(arguments.last(), scopes, last),
        prints_next(before, last, text, printed),
    ensures
        print_admits(arguments, scopes, printed),
{
}

/// A call of `print` admits what `print` makes of its arguments.
pub proof fn lemma_admits_print(
    name: Seq<char>,
    arguments: Seq<ExpressionView>,
    scopes: Seq<ScopeView>,
    printed: PrintOutcome,
)
    requires
        name == "print"@,
        print_admits(arguments, scopes, printed),
    ensures
        admits(ExpressionView::FunctionCall { name, arguments }, scopes, print_outcome(printed)),
{
}

/// The value in the result slot as contracts see it.
pub open spec fn slot_view(slot: Option<Value>) -> Option<ValueView> {
    match slot {
        Some(value) => Some(value@),
        None => None,
    }
}

/// Whether `shorter` is the beginning of `longer`.
pub open spec fn begins<A>(longer: Seq<A>, shorter: Seq<A>) -> bool {
    shorter.len() <= longer.len() && longer.subrange(0, shorter.len() as int) == shorter
}

/// What `longer` holds behind its beginning `shorter`.
pub open spec fn since<A>(longer: Seq<A>, shorter: Seq<A>) -> Seq<A> {
    longer.subrange(shorter.len() as int, longer.len() as int)
}

/// A sequence holds nothing behind itself, and what was appended behind its beginning.
pub proof fn lemma_since_appended<A>(s: Seq<A>, more: Seq<A>)
    ensures
        since(s, s) == Seq::<A>::empty(),
        since(s + more, s) == more,
{
    assert(since(s, s) =~= Seq::<A>::empty());
    assert(since(s + more, s) =~= more);
}

/// A sequence is its beginning and what it holds behind it.
pub proof fn lemma_since_whole<A>(longer: Seq<A>, shorter: Seq<A>)
    requires
        begins(longer, shorter),
    ensures
        longer == shorter + since(longer, shorter),
{
    assert(longer =~= longer.subrange(0, shorter.len() as int) + since(longer, shorter));
}

/// What a sequence holds behind a beginning of its beginning is what the
/// beginning holds behind it, and then what the sequence holds behind the
/// beginning.
pub proof fn lemma_since_chain<A>(a: Seq<A>, b: Seq<A>, c: Seq<A>)
    requires
        begins(b, a),
        begins(c, b),
    ensures
        begins(c, a),
        since(c, a) == since(b, a) + since(c, b),
{
    lemma_begins_chain(a, b, c);
    lemma_since_whole(c, b);
    assert(since(c, a) =~= since(b, a) + since(c, b));
}

/// One more element behind a sequence is one more behind what the sequence
/// holds behind its beginning.
pub proof fn lemma_since_pushed<A>(a: Seq<A>, b: Seq<A>, x: A)
    requires
        begins(b, a),
    ensures
        begins(b.push(x), a),
        since(b.push(x), a) == since(b, a).push(x),
{
    assert(b.push(x).subrange(0, a.len() as int) =~= b.subrange(0, a.len() as int));
    assert(since(b.push(x), a) =~= since(b, a).push(x));
}

/// A sequence begins with itself, and is itself with nothing appended.
pub proof fn lemma_begins_same<A>(s: Seq<A>)
    ensures
        begins(s, s),
        s + Seq::<A>::empty() == s,
{
    assert(s.subrange(0, s.len() as int) =~= s);
    assert(s + Seq::<A>::empty() =~= s);
}

/// A sequence with more appended begins with the sequence.
pub proof fn lemma_begins_appended<A>(s: Seq<A>, more: Seq<A>)
    ensures
        begins(s + more, s),
{
    assert((s + more).subrange(0, s.len() as int) =~= s);
}

/// What begins the beginning of a sequence begins the sequence.
pub proof fn lemma_begins_chain<A>(a: Seq<A>, b: Seq<A>, c: Seq<A>)
    requires
        begins(b, a),
        begins(c, b),
    ensures
        begins(c, a),
{
    assert(c.subrange(0, a.len() as int) =~= c.subrange(0, b.len() as int).subrange(
        0,
        a.len() as int,
    ));
}

/// Evaluates statements against a symbol table that lives as long as the
/// session. A result slot holds the value of the last expression; errors and
/// printed lines are appended to lists that are never cut.
pub struct ASTEvaluator<F: FloatUnit> {
    pub last_value: Option<Value>,
    pub errors: Vec<EvalError>,
    pub output: Vec<String>,
    pub symbol_table: SymbolTable,
    pub unit: F,
}

impl<F: FloatUnit> ASTEvaluator<F> {
    /// The invariant of an evaluator: that of its symbol table.
    pub open spec fn wf(&self) -> bool {
        self.symbol_table.wf()
    }

    /// Whether `self` is what `before` becomes by evaluating `expression`:
    /// the symbol table is the same, the lists have grown at their ends, and
    /// the result slot and what the lists have grown by are an outcome that
    /// the expression admits, whatever the float unit answered. Where the
    /// unit has no part in the outcome, they are those of [`evaluate`].
    pub open spec fn follows(&self, before: &Self, expression: ExpressionView) -> bool {
        &&& self.grown(before, expression)
        &&& evaluate(expression, before.symbol_table@) matches Some(outcome) ==> slot_view(
            self.last_value,
        ) == outcome.value
        &&& admits(expression, before.symbol_table@, self.outcome_since(before))
    }

    /// The outcome of what the evaluator did since it was `before`: the value
    /// in the result slot, and what the lists have grown by.
    pub open spec fn outcome_since(&self, before: &Self) -> Outcome {
        Outcome {
            value: slot_view(self.last_value),
            errors: since(error_views(self.errors@), error_views(before.errors@)),
            output: since(text_views(self.output@), text_views(before.output@)),
        }
    }

    /// The part of [`Self::follows`] that does not speak of the result slot.
    pub open spec fn grown(&self, before: &Self, expression: ExpressionView) -> bool {
        &&& self.wf()
        &&& self.symbol_table@ == before.symbol_table@
        &&& begins(error_views(self.errors@), error_views(before.errors@))
        &&& begins(text_views(self.output@), text_views(before.output@))
        &&& evaluate(expression, before.symbol_table@) matches Some(outcome) ==> {
            &&& error_views(self.errors@) == error_views(before.errors@) + outcome.errors
            &&& text_views(self.output@) == text_views(before.output@) + outcome.output
        }
    }

    /// An evaluator with an empty result slot, no errors and a symbol table
    /// that holds the global scope alone.
    pub fn new(unit: F) -> (r: Self)
        ensures
            r.wf(),
            r.last_value is None,
            r.errors@.len() == 0,
            r.output@.len() == 0,
            r.symbol_table@ == seq![Map::<Seq<char>, crate::ast::symbol_table::SymbolView>::empty()],
    {
        Self {
            last_value: None,
            errors: Vec::new(),
            output: Vec::new(),
            symbol_table: SymbolTable::new(),
            unit,
        }
    }

    /// Records an error and clears the result slot.
    fn fail(&mut self, kind: ErrorKind, subject: String)
        ensures
            final(self).last_value is None,
            error_views(final(self).errors@) == error_views(old(self).errors@).push(
                (kind, subject@),
            ),
            final(self).output == old(self).output,
            final(self).symbol_table == old(self).symbol_table,
    {
        self.errors.push(EvalError::new(kind, subject));
        self.last_value = None;
        assert(error_views(self.errors@) =~= error_views(old(self).errors@).push(
            (kind, subject@),
        ));
    }

    /// Stores the outcome of an operation: its value, or its error.
    fn settle(&mut self, result: Result<Value, ErrorKind>)
        ensures
            final(self).output == old(self).output,
            final(self).symbol_table == old(self).symbol_table,
            conclude(result_view(result), error_views(old(self).errors@), Seq::empty()) == (Outcome {
                value: slot_view(final(self).last_value),
                errors: error_views(final(self).errors@),
                output: Seq::empty(),
            }),
    {
        match result {
            Ok(value) => {
                self.last_value = Some(value);
            },
            Err(kind) => {
                self.fail(kind, String::new());
            },
        }
    }

    /// What the evaluator did since `before`, where it stored the outcome of
    /// an operation behind what it had done until `middle`.
    proof fn lemma_settled(
        &self,
        middle: &Self,
        before: &Self,
        result: Result<ValueView, ErrorKind>,
    )
        requires
            begins(error_views(middle.errors@), error_views(before.errors@)),
            begins(text_views(middle.output@), text_views(before.output@)),
            self.output == middle.output,
            conclude(result, error_views(middle.errors@), Seq::empty()) == (Outcome {
                value: slot_view(self.last_value),
                errors: error_views(self.errors@),
                output: Seq::empty(),
            }),
        ensures
            begins(error_views(self.errors@), error_views(before.errors@)),
            begins(text_views(self.output@), text_views(before.output@)),
            self.outcome_since(before) == conclude(
                result,
                since(error_views(middle.errors@), error_views(before.errors@)),
                since(text_views(middle.output@), text_views(before.output@)),
            ),
    {
        if result is Err {
            lemma_since_pushed(
                error_views(before.errors@),
                error_views(middle.errors@),
                (result->Err_0, Seq::<char>::empty()),
            );
        }
    }

    /// Evaluates a literal: its value.
    pub fn visit_number(&mut self, number: &ASTNumberExpression)
        requires
            old(self).wf(),
        ensures
            final(self).follows(old(self), ExpressionView::Literal(number.value@)),
    {
        self.last_value = Some(number.value.clone());
        proof {
            lemma_begins_same(error_views(self.errors@));
            lemma_begins_same(text_views(self.output@));
            lemma_since_appended(error_views(self.errors@), Seq::empty());
            lemma_since_appended(text_views(self.output@), Seq::empty());
        }
    }

    /// Evaluates an identifier: the value of the variable it stands for.
    pub fn visit_identifier(&mut self, ident: &ASTIdentifierExpression)
        requires
            old(self).wf(),
        ensures
            final(self).follows(old(self), ExpressionView::Identifier(ident.name@)),
    {
        match self.symbol_table.get_value(ident.name.as_str()) {
            Ok(value) => {
                self.last_value = Some(value);
                proof {
                    lemma_begins_same(error_views(self.errors@));
                    lemma_since_appended(error_views(self.errors@), Seq::empty());
                }
            },
            Err(kind) => {
                self.fail(kind, ident.name.clone());
                proof {
                    let recorded = seq![(ErrorKind::NotFound, ident.name@)];
                    assert(error_views(self.errors@) =~= error_views(old(self).errors@)
                        + recorded);
                    lemma_begins_appended(error_views(old(self).errors@), recorded);
                    lemma_since_appended(error_views(old(self).errors@), recorded);
                }
            },
        }
        proof {
            lemma_begins_same(text_views(self.output@));
            lemma_since_appended(text_views(self.output@), Seq::empty());
        }
    }
}


impl<F: FloatUnit> ASTEvaluator<F> {
    /// Whether `self` is what `before` becomes by evaluating the first
    /// `count` arguments of `print`, with `line` made of their values.
    pub open spec fn printing(
        &self,
        before: &Self,
        arguments: Seq<ExpressionView>,
        line: Seq<char>,
        count: int,
    ) -> bool {
        &&& self.wf()
        &&& self.symbol_table@ == before.symbol_table@
        &&& begins(error_views(self.errors@), error_views(before.errors@))
        &&& begins(text_views(self.output@), text_views(before.output@))
        &&& print_arguments(arguments, before.symbol_table@) matches Some(printed) ==> {
            &&& line == printed.line
            &&& count == printed.count
            &&& error_views(self.errors@) == error_views(before.errors@) + printed.errors
            &&& text_views(self.output@) == text_views(before.output@) + printed.output
        }
        &&& count >= 0
        &&& print_admits(arguments, before.symbol_table@, self.printed_since(before, line, count))
    }

    /// What `print` has made of its arguments since the evaluator was
    /// `before`: the line so far, the number of values in it, and what the
    /// lists have grown by.
    pub open spec fn printed_since(&self, before: &Self, line: Seq<char>, count: int)
        -> PrintOutcome {
        PrintOutcome {
            line,
            count: count as nat,
            errors: since(error_views(self.errors@), error_views(before.errors@)),
            output: since(text_views(self.output@), text_views(before.output@)),
        }
    }

    /// One evaluation behind another: the lists grow by what both add.
    proof fn lemma_follows_both(
        &self,
        first: &Self,
        before: &Self,
        left: ExpressionView,
        right: ExpressionView,
    )
        requires
            first.follows(before, left),
            self.follows(first, right),
        ensures
            begins(error_views(self.errors@), error_views(before.errors@)),
            begins(text_views(self.output@), text_views(before.output@)),
            evaluate(left, before.symbol_table@) is Some && evaluate(
                right,
                before.symbol_table@,
            ) is Some ==> {
                let a = evaluate(left, before.symbol_table@)->0;
                let b = evaluate(right, before.symbol_table@)->0;
                &&& error_views(self.errors@) == error_views(before.errors@) + (a.errors
                    + b.errors)
                &&& text_views(self.output@) == text_views(before.output@) + (a.output
                    + b.output)
            },
    {
        lemma_begins_chain(
            error_views(before.errors@),
            error_views(first.errors@),
            error_views(self.errors@),
        );
        lemma_begins_chain(
            text_views(before.output@),
            text_views(first.output@),
            text_views(self.output@),
        );
        if evaluate(left, before.symbol_table@) is Some && evaluate(
            right,
            before.symbol_table@,
        ) is Some {
            let a = evaluate(left, before.symbol_table@)->0;
            let b = evaluate(right, before.symbol_table@)->0;
            assert((error_views(before.errors@) + a.errors) + b.errors =~= error_views(
                before.errors@,
            ) + (a.errors + b.errors));
            assert((text_views(before.output@) + a.output) + b.output =~= text_views(
                before.output@,
            ) + (a.output + b.output));
        }
    }

    /// Evaluates an expression: the result slot holds its value, or nothing
    /// where it has none.
    pub fn visit_expression(&mut self, expression: &ASTExpression)
        requires
            old(self).wf(),
        ensures
            final(self).follows(old(self), expression@),
        decreases expression,
    {
        proof {
            lemma_view_of_kind(*expression);
        }
        match &expression.kind {
            ASTExpressionKind::Number(number) => self.visit_number(number),
            ASTExpressionKind::Binary(binary) => self.visit_binary_expression(binary),
            ASTExpressionKind::Paranthesized(inner) => self.visit_parenthesized_expression(inner),
            ASTExpressionKind::Unary(unary) => self.visit_unary_expression(unary),
            ASTExpressionKind::Identifier(identifier) => self.visit_identifier(identifier),
            ASTExpressionKind::FunctionCall(call) => self.visit_function_call(call),
        }
    }

    /// Evaluates an expression in parentheses: the expression inside.
    pub fn visit_parenthesized_expression(&mut self, paren_expr: &ASTParanthesizedExpression)
        requires
            old(self).wf(),
        ensures
            final(self).follows(
                old(self),
                ExpressionView::Parenthesized(Box::new(paren_expr.expression@)),
            ),
        decreases paren_expr,
    {
        self.visit_expression(&paren_expr.expression);
    }

    /// Evaluates a unary operator on its operand.
    pub fn visit_unary_expression(&mut self, unary_expr: &ASTUnaryExpression)
        requires
            old(self).wf(),
        ensures
            final(self).follows(old(self), unary_view(*unary_expr)),
        decreases unary_expr,
    {
        self.visit_expression(&unary_expr.operand);
        let ghost middle = *self;
        let result = match self.last_value.take() {
            Some(operand) => apply_unary(unary_expr.operator.kind, operand),
            None => Err(ErrorKind::OperandFailed),
        };
        self.settle(result);
        proof {
            let recorded = error_views(self.errors@);
            let earlier = error_views(middle.errors@);
            if result is Err {
                lemma_begins_appended(earlier, seq![(result->Err_0, Seq::<char>::empty())]);
                assert(earlier.push((result->Err_0, Seq::<char>::empty())) =~= earlier + seq![
                    (result->Err_0, Seq::<char>::empty()),
                ]);
            } else {
                lemma_begins_same(earlier);
            }
            lemma_begins_chain(error_views(old(self).errors@), earlier, recorded);
            let inner = middle.outcome_since(old(self));
            self.lemma_settled(&middle, old(self), result_view(result));
            assert(admits(*unary_view(*unary_expr)->Unary_operand, old(self).symbol_table@, inner));
            assert(self.outcome_since(old(self)) == unary_outcome(
                unary_expr.operator.kind,
                inner,
            ));
            assert(admits(
                unary_view(*unary_expr),
                old(self).symbol_table@,
                self.outcome_since(old(self)),
            ));
        }
    }

    /// Evaluates a binary operator on its operands. `&&` and `||` leave the
    /// right operand unevaluated where the left one decides.
    pub fn visit_binary_expression(&mut self, expr: &ASTBinaryExpression)
        requires
            old(self).wf(),
        ensures
            final(self).follows(old(self), binary_view(*expr)),
        decreases expr,
    {
        let operator = expr.operator.kind;
        let conjunction = matches!(operator, ASTBinaryOperatorKind::LogicalAnd);
        let disjunction = matches!(operator, ASTBinaryOperatorKind::LogicalOr);
        let ghost scopes = self.symbol_table@;
        let ghost token = expr.operator.token@;
        self.visit_expression(&expr.left);
        let ghost first = *self;
        let ghost begun = first.outcome_since(old(self));
        let left = match self.last_value.take() {
            Some(value) => value,
            None => {
                if !conjunction && !disjunction {
                    self.fail(ErrorKind::LeftOperandFailed, String::new());
                    proof {
                        lemma_begins_appended(
                            error_views(first.errors@),
                            seq![(ErrorKind::LeftOperandFailed, Seq::<char>::empty())],
                        );
                        assert(error_views(self.errors@) =~= error_views(first.errors@) + seq![
                            (ErrorKind::LeftOperandFailed, Seq::<char>::empty()),
                        ]);
                        lemma_begins_chain(
                            error_views(old(self).errors@),
                            error_views(first.errors@),
                            error_views(self.errors@),
                        );
                        self.lemma_settled(&first, old(self), Err(ErrorKind::LeftOperandFailed));
                    }
                }
                proof {
                    lemma_admits_left(
                        expr.left@,
                        operator,
                        token,
                        expr.right@,
                        scopes,
                        begun,
                        self.outcome_since(old(self)),
                    );
                }
                return ;
            },
        };
        if conjunction || disjunction {
            let truth = left.to_boolean();
            if truth == disjunction {
                self.last_value = Some(Value::Boolean(truth));
                proof {
                    lemma_admits_left(
                        expr.left@,
                        operator,
                        token,
                        expr.right@,
                        scopes,
                        begun,
                        self.outcome_since(old(self)),
                    );
                }
                return ;
            }
        }
        self.visit_expression(&expr.right);
        let ghost second = *self;
        let ghost ended = second.outcome_since(&first);
        proof {
            second.lemma_follows_both(&first, old(self), expr.left@, expr.right@);
            lemma_since_chain(
                error_views(old(self).errors@),
                error_views(first.errors@),
                error_views(second.errors@),
            );
            lemma_since_chain(
                text_views(old(self).output@),
                text_views(first.output@),
                text_views(second.output@),
            );
        }
        let right = match self.last_value.take() {
            Some(value) => value,
            None => {
                if !conjunction && !disjunction {
                    self.fail(ErrorKind::RightOperandFailed, String::new());
                    proof {
                        lemma_begins_appended(
                            error_views(second.errors@),
                            seq![(ErrorKind::RightOperandFailed, Seq::<char>::empty())],
                        );
                        assert(error_views(self.errors@) =~= error_views(second.errors@) + seq![
                            (ErrorKind::RightOperandFailed, Seq::<char>::empty()),
                        ]);
                        lemma_begins_chain(
                            error_views(old(self).errors@),
                            error_views(second.errors@),
                            error_views(self.errors@),
                        );
                        self.lemma_settled(&second, old(self), Err(ErrorKind::RightOperandFailed));
                    }
                }
                proof {
                    let any = Err::<ValueView, ErrorKind>(ErrorKind::RightOperandFailed);
                    lemma_admits_both(
                        expr.left@,
                        operator,
                        token,
                        expr.right@,
                        scopes,
                        begun,
                        ended,
                        any,
                        self.outcome_since(old(self)),
                    );
                }
                return ;
            },
        };
        if conjunction || disjunction {
            let truth = right.to_boolean();
            self.last_value = Some(Value::Boolean(truth));
            proof {
                lemma_admits_both(
                    expr.left@,
                    operator,
                    token,
                    expr.right@,
                    scopes,
                    begun,
                    ended,
                    Ok(ValueView::Boolean(truth)),
                    self.outcome_since(old(self)),
                );
            }
            return ;
        }
        let result = apply_binary(operator, &left, &right, &self.unit);
        self.settle(result);
        proof {
            let earlier = error_views(second.errors@);
            if result is Err {
                lemma_begins_appended(earlier, seq![(result->Err_0, Seq::<char>::empty())]);
                assert(earlier.push((result->Err_0, Seq::<char>::empty())) =~= earlier + seq![
                    (result->Err_0, Seq::<char>::empty()),
                ]);
            } else {
                lemma_begins_same(earlier);
            }
            lemma_begins_chain(
                error_views(old(self).errors@),
                earlier,
                error_views(self.errors@),
            );
            self.lemma_settled(&second, old(self), result_view(result));
            lemma_admits_both(
                expr.left@,
                operator,
                token,
                expr.right@,
                scopes,
                begun,
                ended,
                result_view(result),
                self.outcome_since(old(self)),
            );
        }
    }

    /// Evaluates a call. `print` evaluates its arguments from left to right
    /// and prints the text forms of their values on one line, with a space
    /// between two; it yields no value. Any other function is unknown.
    pub fn visit_function_call(&mut self, func_call: &ASTFunctionCallExpression)
        requires
            old(self).wf(),
        ensures
            final(self).follows(old(self), call_view(*func_call)),
        decreases func_call,
    {
        if !same_text(func_call.name.as_str(), "print") {
            self.fail(ErrorKind::UnknownFunction, func_call.name.clone());
            proof {
                let recorded = seq![(ErrorKind::UnknownFunction, func_call.name@)];
                assert(error_views(self.errors@) =~= error_views(old(self).errors@) + recorded);
                lemma_begins_appended(error_views(old(self).errors@), recorded);
                lemma_begins_same(text_views(self.output@));
                lemma_since_appended(error_views(old(self).errors@), recorded);
                lemma_since_appended(text_views(self.output@), Seq::empty());
            }
            return ;
        }
        let ghost arguments = expression_views(func_call.arguments@);
        let ghost scopes = self.symbol_table@;
        let mut line = String::new();
        let mut count: usize = 0;
        let mut i: usize = 0;
        proof {
            lemma_begins_same(error_views(self.errors@));
            lemma_begins_same(text_views(self.output@));
            lemma_since_appended(error_views(self.errors@), Seq::empty());
            lemma_since_appended(text_views(self.output@), Seq::empty());
        }
        while i < func_call.arguments.len()
            invariant
                i <= func_call.arguments@.len(),
                count <= i,
                count == 0 ==> line@.len() == 0,
                arguments == expression_views(func_call.arguments@),
                scopes == old(self).symbol_table@,
                self.printing(old(self), arguments.subrange(0, i as int), line@, count as int),
            decreases func_call.arguments@.len() - i,
        {
            let ghost earlier = *self;
            let ghost prefix = arguments.subrange(0, i as int);
            let ghost longer = arguments.subrange(0, i + 1);
            let ghost before = earlier.printed_since(old(self), line@, count as int);
            proof {
                assert(longer.drop_last() =~= prefix);
                assert(longer.last() == func_call.arguments@[i as int]@);
            }
            self.visit_expression(&func_call.arguments[i]);
            let ghost later = *self;
            let ghost last = later.outcome_since(&earlier);
            let ghost mut shown = Seq::<char>::empty();
            match &self.last_value {
                Some(value) => {
                    let text = value.to_text(&self.unit);
                    if count > 0 {
                        line.push(' ');
                    }
                    line.append(text.as_str());
                    count += 1;
                    proof {
                        shown = text@;
                    }
                },
                None => {},
            }
            i += 1;
            proof {
                lemma_begins_chain(
                    error_views(old(self).errors@),
                    error_views(earlier.errors@),
                    error_views(later.errors@),
                );
                lemma_begins_chain(
                    text_views(old(self).output@),
                    text_views(earlier.output@),
                    text_views(later.output@),
                );
                lemma_since_chain(
                    error_views(old(self).errors@),
                    error_views(earlier.errors@),
                    error_views(later.errors@),
                );
                lemma_since_chain(
                    text_views(old(self).output@),
                    text_views(earlier.output@),
                    text_views(later.output@),
                );
                if print_arguments(longer, scopes) is Some {
                    let exact = print_arguments(prefix, scopes)->0;
                    let outcome = evaluate(longer.last(), scopes)->0;
                    assert((error_views(old(self).errors@) + exact.errors) + outcome.errors
                        =~= error_views(old(self).errors@) + (exact.errors + outcome.errors));
                    assert((text_views(old(self).output@) + exact.output) + outcome.output
                        =~= text_views(old(self).output@) + (exact.output + outcome.output));
                    if outcome.value is Some {
                        let text = outcome.value->0.text()->0;
                        if exact.count > 0 {
                            assert(line@ =~= exact.line + seq![' '] + text);
                        } else {
                            assert(line@ =~= text);
                        }
                    }
                }
                let printed = self.printed_since(old(self), line@, count as int);
                if last.value is Some {
                    if before.count > 0 {
                        assert(line@ =~= before.line + seq![' '] + shown);
                    } else {
                        assert(line@ =~= shown);
                    }
                }
                assert(prints_next(before, last, shown, printed));
                lemma_print_admits_next(longer, scopes, before, last, shown, printed);
            }
        }
        proof {
            assert(arguments.subrange(0, i as int) =~= arguments);
        }
        let ghost earlier = *self;
        let ghost printed = earlier.printed_since(old(self), line@, count as int);
        self.output.push(line);
        self.last_value = None;
        proof {
            let lines = text_views(earlier.output@);
            assert(text_views(self.output@) =~= lines.push(line@));
            lemma_begins_appended(lines, seq![line@]);
            assert(lines.push(line@) =~= lines + seq![line@]);
            lemma_begins_chain(text_views(old(self).output@), lines, text_views(self.output@));
            if print_arguments(arguments, scopes) is Some {
                let outcome = print_arguments(arguments, scopes)->0;
                assert((text_views(old(self).output@) + outcome.output).push(line@)
                    =~= text_views(old(self).output@) + outcome.output.push(line@));
            }
            lemma_since_pushed(text_views(old(self).output@), lines, line@);
            lemma_admits_print(func_call.name@, arguments, scopes, printed);
            assert(self.outcome_since(old(self)) == print_outcome(printed));
        }
    }
}

/// What the execution of a statement yields: the value in the result slot,
/// the errors it records, the lines it prints, and the scopes behind it.
pub struct Execution {
    pub value: Option<ValueView>,
    pub errors: Seq<ErrorView>,
    pub output: Seq<Seq<char>>,
    pub scopes: Seq<ScopeView>,
}

/// Whether an assignment stores an integer in a float variable, so that the
/// float unit says what is stored.
pub open spec fn widens(scopes: Seq<ScopeView>, name: Seq<char>, value: ValueView) -> bool {
    resolve(scopes, name) matches Some(symbol) && symbol.is_mutable && symbol.data_type
        == DataType::Float && value is Integer
}

/// What a declaration or an assignment yields behind the evaluation of its
/// expression: no value; the scopes after the change, or the scopes as they
/// were and one more error, which names the variable.
pub open spec fn store(
    change: Result<Seq<ScopeView>, ErrorKind>,
    name: Seq<char>,
    outcome: Outcome,
    scopes: Seq<ScopeView>,
) -> Execution {
    match change {
        Ok(changed) => Execution {
            value: None,
            errors: outcome.errors,
            output: outcome.output,
            scopes: changed,
        },
        Err(kind) => Execution {
            value: None,
            errors: outcome.errors.push((kind, name)),
            output: outcome.output,
            scopes,
        },
    }
}

/// The execution of a statement in given scopes, where the float unit has no
/// part in it; `None` where it has.
///
/// An expression statement leaves the value of its expression in the result
/// slot. A declaration evaluates its initializer and declares the variable
/// in the innermost scope; an assignment evaluates its right-hand side and
/// assigns. Both leave the result slot empty, and record an error where the
/// expression yields no value.
pub open spec fn execute(statement: StatementView, scopes: Seq<ScopeView>) -> Option<Execution> {
    match statement {
        StatementView::Expression(expression) => match evaluate(expression, scopes) {
            None => None,
            Some(outcome) => Some(
                Execution {
                    value: outcome.value,
                    errors: outcome.errors,
                    output: outcome.output,
                    scopes,
                },
            ),
        },
        StatementView::VariableDeclaration { name, initializer, is_mutable } => match evaluate(
            initializer,
            scopes,
        ) {
            None => None,
            Some(outcome) => match outcome.value {
                None => Some(store(Err(ErrorKind::InitializerFailed), name, outcome, scopes)),
                Some(value) => Some(
                    store(define_model(scopes, name, value, is_mutable), name, outcome, scopes),
                ),
            },
        },
        StatementView::Assignment { name, value } => match evaluate(value, scopes) {
            None => None,
            Some(outcome) => match outcome.value {
                None => Some(store(Err(ErrorKind::AssignmentFailed), name, outcome, scopes)),
                Some(assigned) => if widens(scopes, name, assigned) {
                    None
                } else {
                    Some(
                        store(
                            assign_model(scopes, name, assigned, FloatBits(0)),
                            name,
                            outcome,
                            scopes,
                        ),
                    )
                },
            },
        },
    }
}

/// What a declaration yields behind the evaluation of its initializer.
pub open spec fn declared_execution(
    name: Seq<char>,
    is_mutable: bool,
    outcome: Outcome,
    scopes: Seq<ScopeView>,
) -> Execution {
    match outcome.value {
        None => store(Err(ErrorKind::InitializerFailed), name, outcome, scopes),
        Some(value) => store(define_model(scopes, name, value, is_mutable), name, outcome, scopes),
    }
}

/// What an assignment yields behind the evaluation of its right-hand side;
/// `widened` is the float that the float unit makes of an integer.
pub open spec fn assigned_execution(
    name: Seq<char>,
    outcome: Outcome,
    widened: FloatBits,
    scopes: Seq<ScopeView>,
) -> Execution {
    match outcome.value {
        None => store(Err(ErrorKind::AssignmentFailed), name, outcome, scopes),
        Some(value) => store(assign_model(scopes, name, value, widened), name, outcome, scopes),
    }
}

/// Whether `execution` can be the execution of a statement in given scopes,
/// whatever the float unit answers.
pub open spec fn admits_execution(
    statement: StatementView,
    scopes: Seq<ScopeView>,
    execution: Execution,
) -> bool {
    match statement {
        StatementView::Expression(expression) => execution.scopes == scopes && admits(
            expression,
            scopes,
            Outcome { value: execution.value, errors: execution.errors, output: execution.output },
        ),
        StatementView::VariableDeclaration { name, initializer, is_mutable } => exists|
            outcome: Outcome,
        |
            admits(initializer, scopes, outcome) && execution == #[trigger] declared_execution(
                name,
                is_mutable,
                outcome,
                scopes,
            ),
        StatementView::Assignment { name, value } => exists|outcome: Outcome, widened: FloatBits|
            admits(value, scopes, outcome) && execution == #[trigger] assigned_execution(
                name,
                outcome,
                widened,
                scopes,
            ),
    }
}

/// The execution of statements one behind the other, from the state `start`,
/// where the float unit has no part in it; `None` where it has.
pub open spec fn run(statements: Seq<StatementView>, start: Execution) -> Option<Execution>
    decreases statements.len(),
{
    if statements.len() == 0 {
        Some(start)
    } else {
        match run(statements.drop_last(), start) {
            None => None,
            Some(before) => match execute(statements.last(), before.scopes) {
                None => None,
                Some(last) => Some(
                    Execution {
                        value: last.value,
                        errors: before.errors + last.errors,
                        output: before.output + last.output,
                        scopes: last.scopes,
                    },
                ),
            },
        }
    }
}

impl<F: FloatUnit> ASTEvaluator<F> {
    /// The state of the evaluator as contracts see it.
    pub open spec fn state(&self) -> Execution {
        Execution {
            value: slot_view(self.last_value),
            errors: error_views(self.errors@),
            output: text_views(self.output@),
            scopes: self.symbol_table@,
        }
    }

    /// Whether `self` is what `before` becomes by executing `statement`: the
    /// lists have grown at their ends, the scopes are as many as before, and
    /// the result slot, the scopes and what the lists have grown by are an
    /// execution that the statement admits, whatever the float unit
    /// answered. Where the unit has no part in the execution, they are those
    /// of [`execute`].
    pub open spec fn executes(&self, before: &Self, statement: StatementView) -> bool {
        &&& self.wf()
        &&& self.symbol_table@.len() == before.symbol_table@.len()
        &&& statement is Expression ==> self.symbol_table@ == before.symbol_table@
        &&& !(statement is Expression) ==> self.last_value is None
        &&& begins(error_views(self.errors@), error_views(before.errors@))
        &&& begins(text_views(self.output@), text_views(before.output@))
        &&& execute(statement, before.symbol_table@) matches Some(execution) ==> {
            &&& slot_view(self.last_value) == execution.value
            &&& error_views(self.errors@) == error_views(before.errors@) + execution.errors
            &&& text_views(self.output@) == text_views(before.output@) + execution.output
            &&& self.symbol_table@ == execution.scopes
        }
        &&& admits_execution(statement, before.symbol_table@, self.execution_since(before))
    }

    /// The execution of what the evaluator did since it was `before`: the
    /// value in the result slot, what the lists have grown by, and the scopes.
    pub open spec fn execution_since(&self, before: &Self) -> Execution {
        Execution {
            value: slot_view(self.last_value),
            errors: since(error_views(self.errors@), error_views(before.errors@)),
            output: since(text_views(self.output@), text_views(before.output@)),
            scopes: self.symbol_table@,
        }
    }

    /// Records an error about a variable behind the evaluation of an expression.
    fn fail_about(&mut self, kind: ErrorKind, name: &String, Ghost(before): Ghost<&Self>, Ghost(
        expression,
    ): Ghost<ExpressionView>)
        requires
            old(self).grown(before, expression),
        ensures
            final(self).wf(),
            final(self).last_value is None,
            final(self).symbol_table == old(self).symbol_table,
            begins(error_views(final(self).errors@), error_views(before.errors@)),
            begins(text_views(final(self).output@), text_views(before.output@)),
            evaluate(expression, before.symbol_table@) matches Some(outcome) ==> {
                &&& error_views(final(self).errors@) == error_views(before.errors@)
                    + outcome.errors.push((kind, name@))
                &&& text_views(final(self).output@) == text_views(before.output@) + outcome.output
            },
            final(self).output == old(self).output,
            since(error_views(final(self).errors@), error_views(before.errors@)) == since(
                error_views(old(self).errors@),
                error_views(before.errors@),
            ).push((kind, name@)),
    {
        self.fail(kind, name.clone());
        proof {
            lemma_since_pushed(
                error_views(before.errors@),
                error_views(old(self).errors@),
                (kind, name@),
            );
            let earlier = error_views(old(self).errors@);
            lemma_begins_appended(earlier, seq![(kind, name@)]);
            assert(earlier.push((kind, name@)) =~= earlier + seq![(kind, name@)]);
            lemma_begins_chain(error_views(before.errors@), earlier, error_views(self.errors@));
            if evaluate(expression, before.symbol_table@) is Some {
                let outcome = evaluate(expression, before.symbol_table@)->0;
                assert((error_views(before.errors@) + outcome.errors).push((kind, name@))
                    =~= error_views(before.errors@) + outcome.errors.push((kind, name@)));
            }
        }
    }

    /// Executes a declaration: evaluates the initializer, then declares the
    /// variable in the innermost scope with the declared mutability.
    pub fn visit_variable_declaration(&mut self, decl: &ASTVariableDeclaration)
        requires
            old(self).wf(),
        ensures
            final(self).executes(old(self), declaration_view(*decl)),
    {
        self.visit_expression(&decl.initializer);
        let ghost outcome = self.outcome_since(old(self));
        match self.last_value.take() {
            Some(value) => {
                match self.symbol_table.define(decl.name.clone(), value, decl.is_mutable) {
                    Ok(()) => {},
                    Err(kind) => {
                        self.fail_about(
                            kind,
                            &decl.name,
                            Ghost(old(self)),
                            Ghost(decl.initializer@),
                        );
                    },
                }
            },
            None => {
                self.fail_about(
                    ErrorKind::InitializerFailed,
                    &decl.name,
                    Ghost(old(self)),
                    Ghost(decl.initializer@),
                );
            },
        }
        proof {
            assert(self.execution_since(old(self)) == declared_execution(
                decl.name@,
                decl.is_mutable,
                outcome,
                old(self).symbol_table@,
            ));
        }
    }

    /// Executes an assignment: evaluates the right-hand side, then assigns
    /// its value to the variable.
    pub fn visit_assignment(&mut self, assign: &ASTAssignment)
        requires
            old(self).wf(),
        ensures
            final(self).executes(old(self), assignment_view(*assign)),
    {
        self.visit_expression(&assign.value);
        let ghost outcome = self.outcome_since(old(self));
        let ghost mut widened = FloatBits(0);
        match self.last_value.take() {
            Some(value) => {
                let assigned = self.symbol_table.assign(assign.name.as_str(), value, &self.unit);
                proof {
                    widened = float_of(resolve(self.symbol_table@, assign.name@)->0.value);
                }
                match assigned {
                    Ok(()) => {},
                    Err(kind) => {
                        self.fail_about(
                            kind,
                            &assign.name,
                            Ghost(old(self)),
                            Ghost(assign.value@),
                        );
                    },
                }
            },
            None => {
                self.fail_about(
                    ErrorKind::AssignmentFailed,
                    &assign.name,
                    Ghost(old(self)),
                    Ghost(assign.value@),
                );
            },
        }
        proof {
            assert(self.execution_since(old(self)) == assigned_execution(
                assign.name@,
                outcome,
                widened,
                old(self).symbol_table@,
            ));
        }
    }

    /// Executes a statement.
    pub fn visit_statement(&mut self, statement: &ASTStatement)
        requires
            old(self).wf(),
        ensures
            final(self).executes(old(self), statement@),
    {
        match &statement.kind {
            ASTStatementKind::Expression(expression) => self.visit_expression(expression),
            ASTStatementKind::VariableDeclaration(declaration) => self.visit_variable_declaration(
                declaration,
            ),
            ASTStatementKind::Assignment(assignment) => self.visit_assignment(assignment),
        }
    }
}

impl<F: FloatUnit> ASTVisitor for ASTEvaluator<F> {
    open spec fn valid(&self) -> bool {
        self.wf()
    }

    open spec fn visited(&self, before: &Self, statement: StatementView) -> bool {
        self.executes(before, statement)
    }

    open spec fn visited_form(&self, before: &Self, statement: StatementView) -> bool {
        self.executes(before, statement)
    }

    open spec fn visited_expression(&self, before: &Self, expression: ExpressionView) -> bool {
        self.follows(before, expression)
    }

    open spec fn visited_node(&self, before: &Self, expression: ExpressionView) -> bool {
        self.follows(before, expression)
    }

    fn visit_statement(&mut self, statement: &ASTStatement) {
        ASTEvaluator::visit_statement(self, statement)
    }

    fn visit_expression(&mut self, expression: &ASTExpression) {
        ASTEvaluator::visit_expression(self, expression)
    }

    fn visit_number(&mut self, number: &ASTNumberExpression) {
        ASTEvaluator::visit_number(self, number)
    }

    fn visit_binary_expression(&mut self, expr: &ASTBinaryExpression) {
        ASTEvaluator::visit_binary_expression(self, expr)
    }

    fn visit_parenthesized_expression(&mut self, paren_expr: &ASTParanthesizedExpression) {
        ASTEvaluator::visit_parenthesized_expression(self, paren_expr)
    }

    fn visit_unary_expression(&mut self, unary_expr: &ASTUnaryExpression) {
        ASTEvaluator::visit_unary_expression(self, unary_expr)
    }

    fn visit_identifier(&mut self, ident: &ASTIdentifierExpression) {
        ASTEvaluator::visit_identifier(self, ident)
    }

    fn visit_function_call(&mut self, func_call: &ASTFunctionCallExpression) {
        ASTEvaluator::visit_function_call(self, func_call)
    }

    fn visit_variable_declaration(&mut self, decl: &ASTVariableDeclaration) {
        ASTEvaluator::visit_variable_declaration(self, decl)
    }

    fn visit_assignment(&mut self, assign: &ASTAssignment) {
        ASTEvaluator::visit_assignment(self, assign)
    }
}

/// The visits of the statements of a program by an evaluator are their
/// execution in order: the result slot, the scopes and the lists are those
/// of [`run`], where the float unit has no part in the execution.
pub proof fn law_visits_run<F: FloatUnit>(
    after: ASTEvaluator<F>,
    before: ASTEvaluator<F>,
    statements: Seq<StatementView>,
)
    requires
        before.wf(),
        visited_all(after, before, statements),
    ensures
        after.wf(),
        after.symbol_table@.len() == before.symbol_table@.len(),
        begins(error_views(after.errors@), error_views(before.errors@)),
        begins(text_views(after.output@), text_views(before.output@)),
        run(statements, before.state()) matches Some(execution) ==> after.state() == execution,
    decreases statements.len(),
{
    if statements.len() == 0 {
        lemma_begins_same(error_views(after.errors@));
        lemma_begins_same(text_views(after.output@));
    } else {
        let between = choose|between: ASTEvaluator<F>|
            visited_all(between, before, statements.drop_last()) && #[trigger] after.visited(
                &between,
                statements.last(),
            );
        law_visits_run(between, before, statements.drop_last());
        lemma_begins_chain(
            error_views(before.errors@),
            error_views(between.errors@),
            error_views(after.errors@),
        );
        lemma_begins_chain(
            text_views(before.output@),
            text_views(between.output@),
            text_views(after.output@),
        );
    }
}

impl<F: FloatUnit> ASTEvaluator<F> {
    /// Whether `self` is what `before` becomes by executing the first
    /// statement of the token stream `tokens`; `parsed` tells whether the
    /// stream begins with a statement. Without one nothing changes.
    pub open spec fn line_done(&self, before: &Self, tokens: Seq<TokenView>, parsed: bool) -> bool {
        match parse_statement(significant(tokens), 0) {
            Some((statement, _)) => parsed && self.executes(before, statement),
            None => !parsed && self.wf() && self.state() == before.state(),
        }
    }

    /// Executes one line of source text: scans it, parses its first
    /// statement and executes the statement. Returns whether the line begins
    /// with a statement. The caller tells a value from an error by the
    /// result slot and the length of the error list.
    pub fn execute_line(&mut self, input: &str) -> (parsed: bool)
        requires
            old(self).wf(),
            input@.len() < usize::MAX,
        ensures
            exists|tokens: Seq<TokenView>|
                scanned(input@, tokens) && final(self).line_done(old(self), tokens, parsed),
    {
        let tokens = tokenize(input, &self.unit);
        let ghost scanned_tokens = token_views(tokens@);
        let mut parser = Parser::new(tokens);
        match parser.next_statement() {
            Some(statement) => {
                self.visit_statement(&statement);
                assert(self.line_done(old(self), scanned_tokens, true));
                true
            },
            None => {
                assert(self.line_done(old(self), scanned_tokens, false));
                false
            },
        }
    }
}


/// The quotient and the remainder of a magnitude by a positive divisor.
proof fn lemma_magnitudes(x: int, d: int)
    requires
        x >= 0,
        d > 0,
    ensures
        x == d * (x / d) + x % d,
        0 <= x % d < d,
        0 <= x / d <= x,
{
    lemma_fundamental_div_mod(x, d);
    lemma_mod_pos_bound(x, d);
    lemma_div_pos_is_pos(x, d);
    lemma_div_nonincreasing(x, d);
}

/// Division that rounds towards zero is the division of the machine: the
/// quotient times the divisor, plus the remainder, is the dividend; the
/// remainder is smaller than the divisor in magnitude and has the sign of
/// the dividend; the quotient is no greater than the dividend in magnitude.
pub proof fn law_truncation(a: int, b: int)
    requires
        b != 0,
    ensures
        a == b * truncated_quotient(a, b) + truncated_remainder(a, b),
        abs(truncated_remainder(a, b)) < abs(b),
        truncated_remainder(a, b) > 0 ==> a > 0,
        truncated_remainder(a, b) < 0 ==> a < 0,
        abs(truncated_quotient(a, b)) <= abs(a),
        truncated_quotient(a, b) > 0 ==> (a > 0 <==> b > 0),
        truncated_quotient(a, b) < 0 ==> (a > 0 <==> b < 0),
{
    let x = abs(a) as int;
    let d = abs(b) as int;
    lemma_magnitudes(x, d);
    let q = x / d;
    let r = x % d;
    if a > 0 && b > 0 {
    } else if a < 0 && b < 0 {
        assert(b * q == -(d * q)) by (nonlinear_arith)
            requires
                b == -d,
        ;
    } else if a < 0 {
        assert(b * (-q) == -(d * q)) by (nonlinear_arith)
            requires
                b == d,
        ;
    } else if a > 0 {
        assert(b * (-q) == d * q) by (nonlinear_arith)
            requires
                b == -d,
        ;
    } else {
        assert(b * 0 == 0) by (nonlinear_arith);
    }
}

/// The outcome of an operation that fails on the values of its operands: no
/// value, and one error that is about no name.
pub open spec fn failure(kind: ErrorKind) -> Outcome {
    Outcome { value: None, errors: seq![(kind, Seq::<char>::empty())], output: Seq::empty() }
}

/// An integer literal joined to another by a binary operator.
pub open spec fn integer_operation(
    a: i64,
    operator: ASTBinaryOperatorKind,
    token: TokenView,
    b: i64,
) -> ExpressionView {
    ExpressionView::Binary {
        left: Box::new(ExpressionView::Literal(ValueView::Integer(a))),
        operator,
        token,
        right: Box::new(ExpressionView::Literal(ValueView::Integer(b))),
    }
}

/// Division and remainder of two integers follow the division of the
/// machine, which rounds towards zero: `a / b` is the truncated quotient and
/// `a % b` the truncated remainder, whatever the scopes hold. A zero divisor
/// is recorded as an error and yields no value; so is the one quotient that
/// does not fit in 64 bits.
pub proof fn law_integer_division(a: i64, b: i64, token: TokenView, scopes: Seq<ScopeView>)
    ensures
        b == 0 ==> evaluate(
            integer_operation(a, ASTBinaryOperatorKind::Divide, token, b),
            scopes,
        ) == Some(failure(ErrorKind::DivisionByZero)),
        b == 0 ==> evaluate(
            integer_operation(a, ASTBinaryOperatorKind::Modulo, token, b),
            scopes,
        ) == Some(failure(ErrorKind::ModuloByZero)),
        a == i64::MIN && b == -1 ==> evaluate(
            integer_operation(a, ASTBinaryOperatorKind::Divide, token, b),
            scopes,
        ) == Some(failure(ErrorKind::Overflow)),
        a == i64::MIN && b == -1 ==> evaluate(
            integer_operation(a, ASTBinaryOperatorKind::Modulo, token, b),
            scopes,
        ) == Some(failure(ErrorKind::Overflow)),
        b != 0 && !(a == i64::MIN && b == -1) ==> fits(truncated_quotient(a as int, b as int))
            && evaluate(integer_operation(a, ASTBinaryOperatorKind::Divide, token, b), scopes)
            == Some(plain(ValueView::Integer(truncated_quotient(a as int, b as int) as i64))),
        b != 0 && !(a == i64::MIN && b == -1) ==> fits(truncated_remainder(a as int, b as int))
            && evaluate(integer_operation(a, ASTBinaryOperatorKind::Modulo, token, b), scopes)
            == Some(plain(ValueView::Integer(truncated_remainder(a as int, b as int) as i64))),
{
    let left = ExpressionView::Literal(ValueView::Integer(a));
    let right = ExpressionView::Literal(ValueView::Integer(b));
    let division = ExpressionView::Binary {
        left: Box::new(left),
        operator: ASTBinaryOperatorKind::Divide,
        token,
        right: Box::new(right),
    };
    let modulo = ExpressionView::Binary {
        left: Box::new(left),
        operator: ASTBinaryOperatorKind::Modulo,
        token,
        right: Box::new(right),
    };
    let none = Seq::<ErrorView>::empty();
    let silent = Seq::<Seq<char>>::empty();
    assert(evaluate(left, scopes) == Some(plain(ValueView::Integer(a))));
    assert(evaluate(right, scopes) == Some(plain(ValueView::Integer(b))));
    assert(none + none =~= none);
    assert(silent + silent =~= silent);
    assert(evaluate(division, scopes) == Some(
        conclude(integer_arithmetic(ASTBinaryOperatorKind::Divide, a, b), none, silent),
    ));
    assert(evaluate(modulo, scopes) == Some(
        conclude(integer_arithmetic(ASTBinaryOperatorKind::Modulo, a, b), none, silent),
    ));
    assert forall|kind: ErrorKind|
        #[trigger] none.push((kind, Seq::<char>::empty())) == seq![
            (kind, Seq::<char>::empty()),
        ] by {
        assert(none.push((kind, Seq::<char>::empty())) =~= seq![(kind, Seq::<char>::empty())]);
    }
    if a == i64::MIN && b == -1 {
        assert(truncated_quotient(a as int, b as int) == 0x8000_0000_0000_0000int / 1);
        assert(!fits(truncated_quotient(a as int, b as int)));
    }
    if b != 0 && !(a == i64::MIN && b == -1) {
        law_truncation(a as int, b as int);
        let q = truncated_quotient(a as int, b as int);
        let r = truncated_remainder(a as int, b as int);
        if q > i64::MAX && b <= -2 {
            assert(b * q + r < a) by (nonlinear_arith)
                requires
                    b <= -2,
                    q > 0x7fff_ffff_ffff_ffff,
                    a >= -0x8000_0000_0000_0000,
                    r <= 0,
            ;
        }
        assert(fits(q));
        assert(fits(r));
    }
}

/// `&&` and `||` leave their right operand unevaluated where the left one
/// decides: whatever the right operand is, the outcome of `&&` behind a
/// falsy left operand is `false`, that of `||` behind a truthy one is `true`,
/// with the errors and lines of the left operand alone.
pub proof fn law_short_circuit(
    left: ExpressionView,
    right: ExpressionView,
    token: TokenView,
    scopes: Seq<ScopeView>,
)
    requires
        evaluate(left, scopes) matches Some(first) && first.value is Some,
    ensures
        ({
            let first = evaluate(left, scopes)->0;
            let decided = |value: bool|
                Some(Outcome { value: Some(ValueView::Boolean(value)), ..first });
            &&& !first.value->0.truthy() ==> evaluate(
                ExpressionView::Binary {
                    left: Box::new(left),
                    operator: ASTBinaryOperatorKind::LogicalAnd,
                    token,
                    right: Box::new(right),
                },
                scopes,
            ) == decided(false)
            &&& first.value->0.truthy() ==> evaluate(
                ExpressionView::Binary {
                    left: Box::new(left),
                    operator: ASTBinaryOperatorKind::LogicalOr,
                    token,
                    right: Box::new(right),
                },
                scopes,
            ) == decided(true)
        }),
{
}

/// An expression changes no variable: the scopes behind an expression
/// statement are the scopes before it.
pub proof fn law_expressions_keep_scopes(expression: ExpressionView, scopes: Seq<ScopeView>)
    ensures
        execute(StatementView::Expression(expression), scopes) matches Some(execution)
            ==> execution.scopes == scopes,
{
}

/// A constant keeps its value: behind the declaration of a constant, an
/// assignment to its name records that the variable is immutable, yields no
/// value and leaves the scopes as the declaration left them.
pub proof fn law_constant_assignment(
    scopes: Seq<ScopeView>,
    name: Seq<char>,
    value: ValueView,
    assigned: ExpressionView,
)
    requires
        scopes.len() > 0,
        !scopes.last().dom().contains(name),
    ensures
        ({
            let declaration = execute(
                StatementView::VariableDeclaration {
                    name,
                    initializer: ExpressionView::Literal(value),
                    is_mutable: false,
                },
                scopes,
            );
            let declared = declaration->0;
            let outcome = evaluate(assigned, declared.scopes);
            &&& declaration is Some
            &&& declared.errors.len() == 0
            &&& resolve(declared.scopes, name) is Some
            &&& resolve(declared.scopes, name)->0.value == value
            &&& (outcome is Some && outcome->0.value is Some) ==> execute(
                StatementView::Assignment { name, value: assigned },
                declared.scopes,
            ) == Some(
                Execution {
                    value: None,
                    errors: outcome->0.errors.push((ErrorKind::Immutable, name)),
                    output: outcome->0.output,
                    scopes: declared.scopes,
                },
            )
        }),
{
    crate::ast::symbol_table::law_declared_resolves(scopes, name, value, false, name);
}


/// Whether a value is a number: an integer or a float.
pub open spec fn is_number(value: ValueView) -> bool {
    value is Integer || value is Float
}

/// A literal joined to another by a binary operator.
pub open spec fn literal_operation(
    left: ValueView,
    operator: ASTBinaryOperatorKind,
    token: TokenView,
    right: ValueView,
) -> ExpressionView {
    ExpressionView::Binary {
        left: Box::new(ExpressionView::Literal(left)),
        operator,
        token,
        right: Box::new(ExpressionView::Literal(right)),
    }
}

/// A power of an integer with a negative integer exponent is a float: the
/// float unit says which, and whatever it answers, the outcome is a float
/// value without an error or a printed line.
pub proof fn law_negative_exponent(
    a: i64,
    b: i64,
    token: TokenView,
    scopes: Seq<ScopeView>,
    outcome: Outcome,
)
    requires
        b < 0,
        admits(
            integer_operation(a, ASTBinaryOperatorKind::Exponentiation, token, b),
            scopes,
            outcome,
        ),
    ensures
        outcome.value is Some,
        outcome.value->0 is Float,
        outcome.errors.len() == 0,
        outcome.output.len() == 0,
{
    reveal_with_fuel(admits, 3);
}

/// An arithmetic or bitwise operator on two integers ends with a value and
/// no error, or with no value and one error, whatever the float unit answers.
pub proof fn law_integer_operation(
    a: i64,
    operator: ASTBinaryOperatorKind,
    b: i64,
    token: TokenView,
    scopes: Seq<ScopeView>,
    outcome: Outcome,
)
    requires
        is_arithmetic(operator) || is_bitwise(operator),
        admits(integer_operation(a, operator, token, b), scopes, outcome),
    ensures
        outcome.value is Some <==> outcome.errors.len() == 0,
        outcome.value is None <==> outcome.errors.len() == 1,
        outcome.output.len() == 0,
{
    reveal_with_fuel(admits, 3);
}

/// A comparison of two numbers is a truth value: where a float is compared,
/// the float unit says which, and whatever it answers, the outcome is a
/// truth value without an error or a printed line.
pub proof fn law_number_comparison(
    left: ValueView,
    operator: ASTBinaryOperatorKind,
    right: ValueView,
    token: TokenView,
    scopes: Seq<ScopeView>,
    outcome: Outcome,
)
    requires
        is_number(left),
        is_number(right),
        is_equality(operator) || is_relational(operator),
        admits(literal_operation(left, operator, token, right), scopes, outcome),
    ensures
        outcome.value is Some,
        outcome.value->0 is Boolean,
        outcome.errors.len() == 0,
        outcome.output.len() == 0,
{
    reveal_with_fuel(admits, 3);
}

/// A logical operator yields a truth value or nothing, whatever the float
/// unit answers; it adds no error to those of its operands.
pub proof fn law_logical_yields_truth(
    left: ExpressionView,
    operator: ASTBinaryOperatorKind,
    right: ExpressionView,
    token: TokenView,
    scopes: Seq<ScopeView>,
    outcome: Outcome,
)
    requires
        operator is LogicalAnd || operator is LogicalOr,
        admits(
            ExpressionView::Binary { left: Box::new(left), operator, token, right: Box::new(right) },
            scopes,
            outcome,
        ),
    ensures
        outcome.value is Some ==> outcome.value->0 is Boolean,
{
}

/// Two comparisons of numbers joined by a logical operator are a truth
/// value: whatever the float unit answers where a float is compared, the
/// outcome is a truth value without an error or a printed line.
pub proof fn law_comparisons_join(
    first: (ValueView, ASTBinaryOperatorKind, ValueView),
    operator: ASTBinaryOperatorKind,
    second: (ValueView, ASTBinaryOperatorKind, ValueView),
    token: TokenView,
    scopes: Seq<ScopeView>,
    outcome: Outcome,
)
    requires
        is_number(first.0) && is_number(first.2) && is_number(second.0) && is_number(second.2),
        is_equality(first.1) || is_relational(first.1),
        is_equality(second.1) || is_relational(second.1),
        operator is LogicalAnd || operator is LogicalOr,
        admits(
            ExpressionView::Binary {
                left: Box::new(literal_operation(first.0, first.1, token, first.2)),
                operator,
                token,
                right: Box::new(literal_operation(second.0, second.1, token, second.2)),
            },
            scopes,
            outcome,
        ),
    ensures
        outcome.value is Some,
        outcome.value->0 is Boolean,
        outcome.errors.len() == 0,
        outcome.output.len() == 0,
{
    reveal_with_fuel(admits, 4);
}


/// Whether an expression holds a call of `print` outside the arguments of a call.
pub open spec fn calls_print(expression: ExpressionView) -> bool
    decreases expression,
{
    match expression {
        ExpressionView::Literal(_) => false,
        ExpressionView::Identifier(_) => false,
        ExpressionView::Parenthesized(inner) => calls_print(*inner),
        ExpressionView::Unary { operator, token, operand } => calls_print(*operand),
        ExpressionView::Binary { left, operator, token, right } => calls_print(*left)
            || calls_print(*right),
        ExpressionView::FunctionCall { name, arguments } => name == "print"@,
    }
}

/// An error clears the result slot: an expression that yields a value has
/// recorded no error, whatever the float unit answered. And only `print`
/// yields nothing in silence: an expression without a call of `print`
/// prints no line, and where it yields no value it has recorded an error.
pub proof fn law_value_or_error(
    expression: ExpressionView,
    scopes: Seq<ScopeView>,
    outcome: Outcome,
)
    requires
        admits(expression, scopes, outcome),
    ensures
        outcome.value is Some ==> outcome.errors.len() == 0,
        !calls_print(expression) ==> outcome.output.len() == 0,
        !calls_print(expression) && outcome.value is None ==> outcome.errors.len() > 0,
    decreases expression,
{
    match expression {
        ExpressionView::Literal(_) => {},
        ExpressionView::Identifier(_) => {},
        ExpressionView::Parenthesized(inner) => {
            law_value_or_error(*inner, scopes, outcome);
        },
        ExpressionView::Unary { operator, token, operand } => {
            let inner = choose|inner: Outcome|
                admits(*operand, scopes, inner) && outcome == #[trigger] unary_outcome(
                    operator,
                    inner,
                );
            law_value_or_error(*operand, scopes, inner);
        },
        ExpressionView::Binary { left, operator, token, right } => {
            let first = choose|first: Outcome|
                admits(*left, scopes, first) && match #[trigger] left_outcome(operator, first) {
                    Some(decided) => outcome == decided,
                    None => exists|second: Outcome, result: Result<ValueView, ErrorKind>|
                        admits(*right, scopes, second) && #[trigger] finishes(
                            operator,
                            first,
                            second,
                            result,
                            outcome,
                        ),
                };
            law_value_or_error(*left, scopes, first);
            if left_outcome(operator, first) is None {
                let (second, result) = choose|second: Outcome, result: Result<ValueView, ErrorKind>|
                    admits(*right, scopes, second) && #[trigger] finishes(
                        operator,
                        first,
                        second,
                        result,
                        outcome,
                    );
                law_value_or_error(*right, scopes, second);
            }
        },
        ExpressionView::FunctionCall { name, arguments } => {},
    }
}


/// Only an expression statement leaves a value, and then without an error;
/// and a statement that records an error leaves the scopes as they were,
/// whatever the float unit answered.
pub proof fn law_statement_value_or_error(
    statement: StatementView,
    scopes: Seq<ScopeView>,
    execution: Execution,
)
    requires
        admits_execution(statement, scopes, execution),
    ensures
        execution.value is Some ==> statement is Expression && execution.errors.len() == 0,
        execution.errors.len() > 0 ==> execution.scopes == scopes,
        statement is Expression ==> execution.scopes == scopes,
{
    match statement {
        StatementView::Expression(expression) => {
            law_value_or_error(
                expression,
                scopes,
                Outcome {
                    value: execution.value,
                    errors: execution.errors,
                    output: execution.output,
                },
            );
        },
        StatementView::VariableDeclaration { name, initializer, is_mutable } => {
            let outcome = choose|outcome: Outcome|
                admits(initializer, scopes, outcome) && execution == #[trigger] declared_execution(
                    name,
                    is_mutable,
                    outcome,
                    scopes,
                );
            law_value_or_error(initializer, scopes, outcome);
        },
        StatementView::Assignment { name, value } => {
            let (outcome, widened) = choose|outcome: Outcome, widened: FloatBits|
                admits(value, scopes, outcome) && execution == #[trigger] assigned_execution(
                    name,
                    outcome,
                    widened,
                    scopes,
                );
            law_value_or_error(value, scopes, outcome);
        },
    }
}

/// An integer assigned to a mutable float variable is stored as a float:
/// the assignment records no error, and the variable then holds a float and
/// keeps its type, whatever the float unit answered.
pub proof fn law_assignment_statement_widens(
    name: Seq<char>,
    assigned: i64,
    scopes: Seq<ScopeView>,
    execution: Execution,
)
    requires
        resolve(scopes, name) matches Some(symbol) && symbol.is_mutable && symbol.data_type
            == DataType::Float,
        admits_execution(
            StatementView::Assignment {
                name,
                value: ExpressionView::Literal(ValueView::Integer(assigned)),
            },
            scopes,
            execution,
        ),
    ensures
        execution.value is None,
        execution.errors.len() == 0,
        resolve(execution.scopes, name) matches Some(symbol) && symbol.value is Float
            && symbol.data_type == DataType::Float && symbol.is_mutable,
{
    let value = ExpressionView::Literal(ValueView::Integer(assigned));
    let (outcome, widened) = choose|outcome: Outcome, widened: FloatBits|
        admits(value, scopes, outcome) && execution == #[trigger] assigned_execution(
            name,
            outcome,
            widened,
            scopes,
        );
    crate::ast::symbol_table::lemma_resolve_depth(scopes, name);
    let depth = crate::ast::symbol_table::resolve_depth(scopes, name)->0;
    let after = execution.scopes;
    assert(after[depth].dom() =~= scopes[depth].dom());
    crate::ast::symbol_table::lemma_resolve_update(scopes, name, depth, after[depth]);
}

impl<F: FloatUnit> ASTEvaluator<F> {
    /// The result slot holds a value only where no error was recorded, and
    /// an expression without a call of `print` that leaves the slot empty
    /// has recorded an error, whatever the float unit answered.
    pub proof fn law_slot_or_error(&self, before: &Self, expression: ExpressionView)
        requires
            self.follows(before, expression),
        ensures
            self.last_value is Some ==> self.errors@.len() == before.errors@.len(),
            !calls_print(expression) ==> self.output@.len() == before.output@.len(),
            !calls_print(expression) && self.last_value is None ==> self.errors@.len()
                > before.errors@.len(),
    {
        law_value_or_error(expression, before.symbol_table@, self.outcome_since(before));
    }
}


/// Where the float unit has no part in the outcome of an expression, the
/// expression admits one outcome: that of [`evaluate`].
pub proof fn law_admitted_is_evaluated(
    expression: ExpressionView,
    scopes: Seq<ScopeView>,
    outcome: Outcome,
)
    requires
        admits(expression, scopes, outcome),
        evaluate(expression, scopes) is Some,
    ensures
        outcome == evaluate(expression, scopes)->0,
    decreases expression,
{
    match expression {
        ExpressionView::Literal(_) => {},
        ExpressionView::Identifier(_) => {},
        ExpressionView::Parenthesized(inner) => {
            law_admitted_is_evaluated(*inner, scopes, outcome);
        },
        ExpressionView::Unary { operator, token, operand } => {
            let inner = choose|inner: Outcome|
                admits(*operand, scopes, inner) && outcome == #[trigger] unary_outcome(
                    operator,
                    inner,
                );
            law_admitted_is_evaluated(*operand, scopes, inner);
        },
        ExpressionView::Binary { left, operator, token, right } => {
            let first = choose|first: Outcome|
                admits(*left, scopes, first) && match #[trigger] left_outcome(operator, first) {
                    Some(decided) => outcome == decided,
                    None => exists|second: Outcome, result: Result<ValueView, ErrorKind>|
                        admits(*right, scopes, second) && #[trigger] finishes(
                            operator,
                            first,
                            second,
                            result,
                            outcome,
                        ),
                };
            law_admitted_is_evaluated(*left, scopes, first);
            if left_outcome(operator, first) is None {
                let (second, result) = choose|second: Outcome, result: Result<ValueView, ErrorKind>|
                    admits(*right, scopes, second) && #[trigger] finishes(
                        operator,
                        first,
                        second,
                        result,
                        outcome,
                    );
                law_admitted_is_evaluated(*right, scopes, second);
            }
        },
        ExpressionView::FunctionCall { name, arguments } => {
            if name == "print"@ {
                let printed = choose|printed: PrintOutcome|
                    print_admits(arguments, scopes, printed) && outcome == #[trigger] print_outcome(
                        printed,
                    );
                lemma_printed_is_evaluated(arguments, scopes, printed);
            }
        },
    }
}

/// Where the float unit has no part in what `print` makes of its arguments,
/// the arguments admit what [`print_arguments`] gives, and nothing else.
pub proof fn lemma_printed_is_evaluated(
    arguments: Seq<ExpressionView>,
    scopes: Seq<ScopeView>,
    printed: PrintOutcome,
)
    requires
        print_admits(arguments, scopes, printed),
        print_arguments(arguments, scopes) is Some,
    ensures
        printed == print_arguments(arguments, scopes)->0,
    decreases arguments,
{
    if arguments.len() > 0 {
        let (before, last, text) = choose|before: PrintOutcome, last: Outcome, text: Seq<char>|
            print_admits(arguments.drop_last(), scopes, before) && admits(
                arguments.last(),
                scopes,
                last,
            ) && #[trigger] prints_next(before, last, text, printed);
        lemma_printed_is_evaluated(arguments.drop_last(), scopes, before);
        law_admitted_is_evaluated(arguments.last(), scopes, last);
    }
}

} // verus!
