use arc_lang::ast::error::ErrorKind;
use arc_lang::ast::evaluator::{
    apply_binary, apply_integer_arithmetic, apply_unary, integer_power, ASTEvaluator,
};
use arc_lang::ast::float::{FloatBits, FloatOperation, FloatUnit};
use arc_lang::ast::lexer::tokenize;
use arc_lang::ast::parser::Parser;
use arc_lang::ast::types::{DataType, Value};
use arc_lang::ast::{ASTBinaryOperatorKind, ASTUnaryOperatorKind, Ast};

struct Host;

impl FloatUnit for Host {
    fn parse(&self, literal: &str) -> FloatBits {
        FloatBits(literal.parse::<f64>().unwrap_or(0.0).to_bits())
    }

    fn from_integer(&self, value: i64) -> FloatBits {
        FloatBits((value as f64).to_bits())
    }

    fn truncate(&self, value: FloatBits) -> i64 {
        f64::from_bits(value.0) as i64
    }

    fn render(&self, value: FloatBits) -> String {
        f64::from_bits(value.0).to_string()
    }

    fn compute(&self, operation: FloatOperation, left: FloatBits, right: FloatBits) -> FloatBits {
        let a = f64::from_bits(left.0);
        let b = f64::from_bits(right.0);
        let r = match operation {
            FloatOperation::Add => a + b,
            FloatOperation::Subtract => a - b,
            FloatOperation::Multiply => a * b,
            FloatOperation::Divide => a / b,
            FloatOperation::Remainder => a % b,
            FloatOperation::Power => a.powf(b),
        };
        FloatBits(r.to_bits())
    }
}

fn float(x: f64) -> Value {
    Value::Float(FloatBits(x.to_bits()))
}

fn text(s: &str) -> Value {
    Value::String(s.to_string())
}

/// Value and kinds of the errors of one line evaluated by a new evaluator.
fn eval(input: &str) -> (Option<Value>, Vec<ErrorKind>) {
    let mut evaluator = ASTEvaluator::new(Host);
    assert!(evaluator.execute_line(input));
    (evaluator.last_value, evaluator.errors.iter().map(|e| e.kind).collect())
}

fn value(input: &str) -> Value {
    let (value, errors) = eval(input);
    assert_eq!(errors, vec![]);
    value.unwrap()
}

fn errors(input: &str) -> Vec<ErrorKind> {
    let (value, errors) = eval(input);
    assert!(value.is_none());
    assert!(!errors.is_empty());
    errors
}

fn session(lines: &[&str]) -> ASTEvaluator<Host> {
    let mut evaluator = ASTEvaluator::new(Host);
    for line in lines {
        assert!(evaluator.execute_line(line));
    }
    evaluator
}

#[test]
fn integer_division_and_remainder_round_towards_zero() {
    let samples: [i64; 12] = [0, 1, -1, 2, -2, 3, 7, -7, 30, -141, i64::MAX, i64::MIN];
    for a in samples {
        for b in samples {
            let quotient =
                apply_integer_arithmetic(ASTBinaryOperatorKind::Divide, a, b);
            let remainder =
                apply_integer_arithmetic(ASTBinaryOperatorKind::Modulo, a, b);
            if b == 0 {
                assert_eq!(quotient, Err(ErrorKind::DivisionByZero));
                assert_eq!(remainder, Err(ErrorKind::ModuloByZero));
            } else if a == i64::MIN && b == -1 {
                assert_eq!(quotient, Err(ErrorKind::Overflow));
                assert_eq!(remainder, Err(ErrorKind::Overflow));
            } else {
                assert_eq!(quotient, Ok(Value::Integer(a / b)));
                assert_eq!(remainder, Ok(Value::Integer(a % b)));
            }
        }
    }
}

#[test]
fn division_is_evaluated_from_source_text() {
    assert_eq!(value("7 / 2"), Value::Integer(3));
    assert_eq!(value("-7 / 2"), Value::Integer(-3));
    assert_eq!(value("7 / -2"), Value::Integer(-3));
    assert_eq!(value("-7 / -2"), Value::Integer(3));
    assert_eq!(value("7 % 2"), Value::Integer(1));
    assert_eq!(value("-7 % 2"), Value::Integer(-1));
    assert_eq!(value("7 % -2"), Value::Integer(1));
    assert_eq!(value("-7 % -2"), Value::Integer(-1));
    assert_eq!(value("0 / 5"), Value::Integer(0));
    assert_eq!(value("6 % 3"), Value::Integer(0));
}

#[test]
fn a_zero_divisor_is_recorded() {
    assert_eq!(errors("1 / 0"), vec![ErrorKind::DivisionByZero]);
    assert_eq!(errors("1 % 0"), vec![ErrorKind::ModuloByZero]);
    assert_eq!(errors("0 / 0"), vec![ErrorKind::DivisionByZero]);
    assert_eq!(errors("1.5 / 0.0"), vec![ErrorKind::DivisionByZero]);
    assert_eq!(errors("1 / 0.0"), vec![ErrorKind::DivisionByZero]);
    assert_eq!(errors("1.5 / 0"), vec![ErrorKind::DivisionByZero]);
    assert_eq!(errors("1.5 % 0.0"), vec![ErrorKind::ModuloByZero]);
    assert_eq!(errors("1.5 / -0.0"), vec![ErrorKind::DivisionByZero]);
}

#[test]
fn exponentiation_is_right_associative() {
    assert_eq!(value("2 ** 3 ** 2"), Value::Integer(512));
    assert_eq!(value("(2 ** 3) ** 2"), Value::Integer(64));
}

#[test]
fn a_negative_exponent_gives_a_float() {
    assert_eq!(value("2 ** -1"), float(0.5));
    assert_eq!(value("2 ** -2"), float(0.25));
    assert_eq!(value("2 ** 0"), Value::Integer(1));
    assert_eq!(value("2.0 ** 3"), float(8.0));
    assert_eq!(value("2 ** 0.5"), float(2f64.powf(0.5)));
}

#[test]
fn integer_powers_are_exact_or_overflow() {
    assert_eq!(integer_power(2, 10), Ok(1024));
    assert_eq!(integer_power(-2, 3), Ok(-8));
    assert_eq!(integer_power(-2, 63), Ok(i64::MIN));
    assert_eq!(integer_power(2, 62), Ok(1 << 62));
    assert_eq!(integer_power(2, 63), Err(ErrorKind::Overflow));
    assert_eq!(integer_power(-2, 64), Err(ErrorKind::Overflow));
    assert_eq!(integer_power(3, 40), Err(ErrorKind::Overflow));
    assert_eq!(integer_power(10, 18), Ok(1_000_000_000_000_000_000));
    assert_eq!(integer_power(10, 19), Err(ErrorKind::Overflow));
    assert_eq!(integer_power(0, 0), Ok(1));
    assert_eq!(integer_power(0, i64::MAX), Ok(0));
    assert_eq!(integer_power(1, i64::MAX), Ok(1));
    assert_eq!(integer_power(-1, i64::MAX), Ok(-1));
    assert_eq!(integer_power(-1, i64::MAX - 1), Ok(1));
    assert_eq!(integer_power(i64::MAX, 1), Ok(i64::MAX));
    assert_eq!(integer_power(i64::MIN, 1), Ok(i64::MIN));
    assert_eq!(integer_power(i64::MIN, 2), Err(ErrorKind::Overflow));
    assert_eq!(integer_power(7, 0), Ok(1));
}

#[test]
fn logical_operators_short_circuit() {
    assert_eq!(eval("false && undefined_name"), (Some(Value::Boolean(false)), vec![]));
    assert_eq!(eval("true || undefined_name"), (Some(Value::Boolean(true)), vec![]));
    assert_eq!(eval("0 && undefined_name"), (Some(Value::Boolean(false)), vec![]));
    assert_eq!(eval("\"x\" || 1 / 0"), (Some(Value::Boolean(true)), vec![]));
    assert_eq!(eval("true && undefined_name"), (None, vec![ErrorKind::NotFound]));
    assert_eq!(eval("false || undefined_name"), (None, vec![ErrorKind::NotFound]));
    assert_eq!(eval("undefined_name && true"), (None, vec![ErrorKind::NotFound]));
    assert_eq!(eval("false && print(1)"), (Some(Value::Boolean(false)), vec![]));
    let skipped = session(&["false && print(1)", "true || print(2)"]);
    assert!(skipped.output.is_empty());
}

#[test]
fn logical_operators_apply_truthiness() {
    assert_eq!(value("true && true"), Value::Boolean(true));
    assert_eq!(value("true && false"), Value::Boolean(false));
    assert_eq!(value("false || false"), Value::Boolean(false));
    assert_eq!(value("false || true"), Value::Boolean(true));
    assert_eq!(value("1 && 2"), Value::Boolean(true));
    assert_eq!(value("1 && \"\""), Value::Boolean(false));
    assert_eq!(value("0 || 0.0"), Value::Boolean(false));
    assert_eq!(value("0 || 0.5"), Value::Boolean(true));
    assert_eq!(value("\"\" || \"a\""), Value::Boolean(true));
}

#[test]
fn const_is_immutable() {
    let evaluator = session(&["const x = 5", "x = 6"]);
    let kinds: Vec<ErrorKind> = evaluator.errors.iter().map(|e| e.kind).collect();
    assert_eq!(kinds, vec![ErrorKind::Immutable]);
    assert_eq!(evaluator.errors[0].subject, "x");
    assert_eq!(evaluator.symbol_table.get_value("x"), Ok(Value::Integer(5)));
    assert!(evaluator.last_value.is_none());
}

#[test]
fn assignment_widens_an_integer_to_a_float() {
    let evaluator = session(&["let x = 5.0", "x = 3"]);
    assert!(evaluator.errors.is_empty());
    assert_eq!(evaluator.symbol_table.get_value("x"), Ok(float(3.0)));
    assert_eq!(evaluator.symbol_table.lookup("x").unwrap().data_type, DataType::Float);
}

#[test]
fn end_to_end() {
    assert_eq!(value("7 - (30 + 7) * 8 / 2"), Value::Integer(-141));
    assert_eq!(value("\"Arc\" + \" Compiler\""), text("Arc Compiler"));
    assert_eq!(value("5 > 2.5 && 10.0 == 10"), Value::Boolean(true));
    assert_eq!(value("!0"), Value::Boolean(true));
}

#[test]
fn arithmetic_on_integers() {
    assert_eq!(value("1 + 2"), Value::Integer(3));
    assert_eq!(value("1 - 2"), Value::Integer(-1));
    assert_eq!(value("6 * 7"), Value::Integer(42));
    assert_eq!(value("1 + 2 * 3"), Value::Integer(7));
    assert_eq!(value("(1 + 2) * 3"), Value::Integer(9));
    assert_eq!(value("10 - 4 - 3"), Value::Integer(3));
    assert_eq!(value("-5"), Value::Integer(-5));
    assert_eq!(value("+5"), Value::Integer(5));
    assert_eq!(value("- -5"), Value::Integer(5));
}

#[test]
fn integer_overflow_is_recorded() {
    assert_eq!(errors("9223372036854775807 + 1"), vec![ErrorKind::Overflow]);
    assert_eq!(errors("-9223372036854775807 - 2"), vec![ErrorKind::Overflow]);
    assert_eq!(errors("4611686018427387904 * 2"), vec![ErrorKind::Overflow]);
    assert_eq!(errors("2 ** 63"), vec![ErrorKind::Overflow]);
    assert_eq!(errors("(-9223372036854775807 - 1) / -1"), vec![ErrorKind::Overflow]);
    assert_eq!(
        apply_unary(ASTUnaryOperatorKind::Minus, Value::Integer(i64::MIN)),
        Err(ErrorKind::Overflow)
    );
    assert_eq!(value("9223372036854775806 + 1"), Value::Integer(i64::MAX));
    assert_eq!(value("-9223372036854775807 - 1"), Value::Integer(i64::MIN));
}

#[test]
fn arithmetic_with_floats() {
    assert_eq!(value("1.5 + 2.25"), float(3.75));
    assert_eq!(value("1 + 2.5"), float(3.5));
    assert_eq!(value("2.5 - 1"), float(1.5));
    assert_eq!(value("2.5 * 2"), float(5.0));
    assert_eq!(value("5 / 2.0"), float(2.5));
    assert_eq!(value("5.5 % 2"), float(1.5));
    assert_eq!(value("-2.5"), float(-2.5));
    assert_eq!(value("-0.0"), float(-0.0));
    assert_eq!(value("0.1 + 0.2"), float(0.1 + 0.2));
}

#[test]
fn plus_joins_texts() {
    assert_eq!(value("\"a\" + \"b\""), text("ab"));
    assert_eq!(value("\"a\" + 1"), text("a1"));
    assert_eq!(value("1 + \"a\""), text("1a"));
    assert_eq!(value("\"n = \" + -12"), text("n = -12"));
    assert_eq!(value("\"x\" + 2.5"), text("x2.5"));
    assert_eq!(value("1.0 + \"x\""), text("1x"));
    assert_eq!(value("\"is \" + true"), text("is true"));
    assert_eq!(value("false + \"!\""), text("false!"));
    assert_eq!(value("\"\" + 0"), text("0"));
    assert_eq!(value("\"\" + 9223372036854775807"), text("9223372036854775807"));
    assert_eq!(value("\"\" + (-9223372036854775807 - 1)"), text("-9223372036854775808"));
}

#[test]
fn arithmetic_type_errors() {
    let invalid = |operator, left, right| ErrorKind::InvalidOperands { operator, left, right };
    assert_eq!(
        errors("\"a\" - \"b\""),
        vec![invalid(ASTBinaryOperatorKind::Minus, DataType::String, DataType::String)]
    );
    assert_eq!(
        errors("\"a\" * 2"),
        vec![invalid(ASTBinaryOperatorKind::Multiply, DataType::String, DataType::Integer)]
    );
    assert_eq!(
        errors("2.5 / \"a\""),
        vec![invalid(ASTBinaryOperatorKind::Divide, DataType::Float, DataType::String)]
    );
    assert_eq!(
        errors("\"a\" % \"b\""),
        vec![invalid(ASTBinaryOperatorKind::Modulo, DataType::String, DataType::String)]
    );
    assert_eq!(
        errors("\"a\" ** 2"),
        vec![invalid(ASTBinaryOperatorKind::Exponentiation, DataType::String, DataType::Integer)]
    );
    assert_eq!(
        errors("true + false"),
        vec![invalid(ASTBinaryOperatorKind::Plus, DataType::Boolean, DataType::Boolean)]
    );
    assert_eq!(
        errors("true + 1"),
        vec![ErrorKind::CannotCoerce { left: DataType::Boolean, right: DataType::Integer }]
    );
    assert_eq!(
        errors("1.5 * false"),
        vec![ErrorKind::CannotCoerce { left: DataType::Float, right: DataType::Boolean }]
    );
}

#[test]
fn bitwise_operators() {
    assert_eq!(value("12 & 10"), Value::Integer(8));
    assert_eq!(value("12 | 10"), Value::Integer(14));
    assert_eq!(value("12 ^ 10"), Value::Integer(6));
    assert_eq!(value("1 << 4"), Value::Integer(16));
    assert_eq!(value("-16 >> 2"), Value::Integer(-4));
    assert_eq!(value("-1 >> 63"), Value::Integer(-1));
    assert_eq!(value("1 << 63"), Value::Integer(i64::MIN));
    assert_eq!(value("3 << 63"), Value::Integer(i64::MIN));
    assert_eq!(value("-1 & 255"), Value::Integer(255));
    assert_eq!(value("true | 2"), Value::Integer(3));
    assert_eq!(value("true & false"), Value::Integer(0));
    assert_eq!(value("7.9 & 5"), Value::Integer(5));
    assert_eq!(value("-7.9 | 0"), Value::Integer(-7));
    assert_eq!(value("1 << 2.5"), Value::Integer(4));
    assert_eq!(value("1 | 2 ^ 3 & 4"), Value::Integer(1 | 2 ^ 3 & 4));
}

#[test]
fn bitwise_errors() {
    assert_eq!(errors("1 << 64"), vec![ErrorKind::ShiftOutOfRange]);
    assert_eq!(errors("1 << -1"), vec![ErrorKind::ShiftOutOfRange]);
    assert_eq!(errors("1 >> 64"), vec![ErrorKind::ShiftOutOfRange]);
    assert_eq!(
        errors("\"a\" & 1"),
        vec![ErrorKind::IntegerOperandsRequired { operator: ASTBinaryOperatorKind::BitwiseAnd }]
    );
    assert_eq!(
        errors("1 | \"a\""),
        vec![ErrorKind::IntegerOperandsRequired { operator: ASTBinaryOperatorKind::BitwiseOr }]
    );
    assert_eq!(
        errors("1.5 ^ \"a\""),
        vec![ErrorKind::IntegerOperandsRequired { operator: ASTBinaryOperatorKind::BitwiseXor }]
    );
    assert_eq!(
        errors("\"a\" << 1"),
        vec![ErrorKind::IntegerOperandsRequired { operator: ASTBinaryOperatorKind::LeftShift }]
    );
    assert_eq!(
        errors("\"a\" >> 1"),
        vec![ErrorKind::IntegerOperandsRequired { operator: ASTBinaryOperatorKind::RightShift }]
    );
}

#[test]
fn comparisons() {
    assert_eq!(value("1 < 2"), Value::Boolean(true));
    assert_eq!(value("2 < 1"), Value::Boolean(false));
    assert_eq!(value("2 <= 2"), Value::Boolean(true));
    assert_eq!(value("2 >= 3"), Value::Boolean(false));
    assert_eq!(value("3 > 2"), Value::Boolean(true));
    assert_eq!(value("1 == 1"), Value::Boolean(true));
    assert_eq!(value("1 != 1"), Value::Boolean(false));
    assert_eq!(value("1.5 < 2.5"), Value::Boolean(true));
    assert_eq!(value("-1.5 < -2.5"), Value::Boolean(false));
    assert_eq!(value("-0.0 < 0.0"), Value::Boolean(false));
    assert_eq!(value("-0.0 >= 0.0"), Value::Boolean(true));
    assert_eq!(value("5 > 2.5"), Value::Boolean(true));
    assert_eq!(value("2.5 > 5"), Value::Boolean(false));
    assert_eq!(value("10.0 == 10"), Value::Boolean(true));
    assert_eq!(value("10 == 10.5"), Value::Boolean(false));
    assert_eq!(value("0.1 + 0.2 == 0.3"), Value::Boolean(true));
    assert_eq!(value("1.0 != 1.0"), Value::Boolean(false));
    assert_eq!(value("\"a\" < \"b\""), Value::Boolean(true));
    assert_eq!(value("\"b\" < \"a\""), Value::Boolean(false));
    assert_eq!(value("\"a\" < \"ab\""), Value::Boolean(true));
    assert_eq!(value("\"Z\" < \"a\""), Value::Boolean(true));
    assert_eq!(value("\"é\" > \"z\""), Value::Boolean(true));
    assert_eq!(value("\"a\" == \"a\""), Value::Boolean(true));
    assert_eq!(value("\"a\" != \"b\""), Value::Boolean(true));
    assert_eq!(value("false < true"), Value::Boolean(true));
    assert_eq!(value("true <= false"), Value::Boolean(false));
    assert_eq!(value("true == true"), Value::Boolean(true));
}

#[test]
fn comparison_type_errors() {
    assert_eq!(
        errors("\"a\" == 1"),
        vec![ErrorKind::CannotEquate { left: DataType::String, right: DataType::Integer }]
    );
    assert_eq!(
        errors("true != 1"),
        vec![ErrorKind::CannotEquate { left: DataType::Boolean, right: DataType::Integer }]
    );
    assert_eq!(
        errors("1.5 < \"a\""),
        vec![ErrorKind::CannotOrder { left: DataType::Float, right: DataType::String }]
    );
    assert_eq!(
        errors("true >= 0"),
        vec![ErrorKind::CannotOrder { left: DataType::Boolean, right: DataType::Integer }]
    );
}

#[test]
fn unary_operators() {
    assert_eq!(value("!0"), Value::Boolean(true));
    assert_eq!(value("!1"), Value::Boolean(false));
    assert_eq!(value("!0.0"), Value::Boolean(true));
    assert_eq!(value("!0.5"), Value::Boolean(false));
    assert_eq!(value("!\"\""), Value::Boolean(true));
    assert_eq!(value("!\"a\""), Value::Boolean(false));
    assert_eq!(value("!true"), Value::Boolean(false));
    assert_eq!(value("!!true"), Value::Boolean(true));
    assert_eq!(value("+\"a\""), text("a"));
    assert_eq!(value("+true"), Value::Boolean(true));
    assert_eq!(errors("-true"), vec![ErrorKind::CannotNegate { operand: DataType::Boolean }]);
    assert_eq!(errors("-\"a\""), vec![ErrorKind::CannotNegate { operand: DataType::String }]);
}

#[test]
fn a_failing_operand_is_reported_up_the_tree() {
    assert_eq!(errors("nobody"), vec![ErrorKind::NotFound]);
    assert_eq!(errors("nobody + 1"), vec![ErrorKind::NotFound, ErrorKind::LeftOperandFailed]);
    assert_eq!(errors("1 + nobody"), vec![ErrorKind::NotFound, ErrorKind::RightOperandFailed]);
    assert_eq!(errors("-nobody"), vec![ErrorKind::NotFound, ErrorKind::OperandFailed]);
    assert_eq!(
        errors("(1 / 0) * 2 + 3"),
        vec![ErrorKind::DivisionByZero, ErrorKind::LeftOperandFailed, ErrorKind::LeftOperandFailed]
    );
    assert_eq!(errors("nobody + other"), vec![ErrorKind::NotFound, ErrorKind::LeftOperandFailed]);
    assert_eq!(errors("1 + print(2)"), vec![ErrorKind::RightOperandFailed]);
}

#[test]
fn declarations_define_variables() {
    let evaluator = session(&["let x = 10", "const y = x * 2", "x + y"]);
    assert!(evaluator.errors.is_empty());
    assert_eq!(evaluator.last_value, Some(Value::Integer(30)));
    assert_eq!(evaluator.symbol_table.is_mutable("x"), Ok(true));
    assert_eq!(evaluator.symbol_table.is_mutable("y"), Ok(false));
}

#[test]
fn a_declaration_leaves_no_value() {
    let evaluator = session(&["let x = 10"]);
    assert!(evaluator.last_value.is_none());
    assert!(evaluator.errors.is_empty());
    let assigned = session(&["let x = 10", "x = 11"]);
    assert!(assigned.last_value.is_none());
    assert!(assigned.errors.is_empty());
    assert_eq!(assigned.symbol_table.get_value("x"), Ok(Value::Integer(11)));
}

#[test]
fn a_failed_initializer_declares_nothing() {
    let evaluator = session(&["let x = nobody"]);
    let kinds: Vec<ErrorKind> = evaluator.errors.iter().map(|e| e.kind).collect();
    assert_eq!(kinds, vec![ErrorKind::NotFound, ErrorKind::InitializerFailed]);
    assert_eq!(evaluator.errors[0].subject, "nobody");
    assert_eq!(evaluator.errors[1].subject, "x");
    assert!(!evaluator.symbol_table.contains("x"));
    assert!(evaluator.last_value.is_none());
}

#[test]
fn statement_errors_name_the_variable() {
    let evaluator = session(&["let x = 1", "let x = 2", "y = 3", "x = true", "x = 1 / 0"]);
    let recorded: Vec<(ErrorKind, &str)> =
        evaluator.errors.iter().map(|e| (e.kind, e.subject.as_str())).collect();
    assert_eq!(
        recorded,
        vec![
            (ErrorKind::AlreadyDeclared, "x"),
            (ErrorKind::NotFound, "y"),
            (
                ErrorKind::TypeMismatch { expected: DataType::Integer, found: DataType::Boolean },
                "x"
            ),
            (ErrorKind::DivisionByZero, ""),
            (ErrorKind::AssignmentFailed, "x"),
        ]
    );
    assert_eq!(evaluator.symbol_table.get_value("x"), Ok(Value::Integer(1)));
}

#[test]
fn errors_do_not_end_the_session() {
    let evaluator = session(&["let x = 4", "x / 0", "nobody", "x * 2"]);
    assert_eq!(evaluator.errors.len(), 2);
    assert_eq!(evaluator.last_value, Some(Value::Integer(8)));
}

#[test]
fn print_writes_one_line() {
    let evaluator = session(&[
        "let x = 10",
        "print(x)",
        "print(1, 2.5, true, \"a b\")",
        "print()",
        "print(x + 1, nobody, \"end\")",
        "print(print(1), 2)",
    ]);
    assert_eq!(evaluator.output, vec!["10", "1 2.5 true a b", "", "11 end", "1", "2"]);
    let kinds: Vec<ErrorKind> = evaluator.errors.iter().map(|e| e.kind).collect();
    assert_eq!(kinds, vec![ErrorKind::NotFound]);
    assert!(evaluator.last_value.is_none());
}

#[test]
fn print_yields_no_value_and_no_error() {
    assert_eq!(eval("print(1)"), (None, vec![]));
}

#[test]
fn other_functions_are_unknown() {
    let evaluator = session(&["foo(1 / 0)"]);
    let recorded: Vec<(ErrorKind, &str)> =
        evaluator.errors.iter().map(|e| (e.kind, e.subject.as_str())).collect();
    assert_eq!(recorded, vec![(ErrorKind::UnknownFunction, "foo")]);
    assert!(evaluator.last_value.is_none());
    assert!(evaluator.output.is_empty());
}

#[test]
fn a_line_without_a_statement_changes_nothing() {
    let mut evaluator = ASTEvaluator::new(Host);
    assert!(evaluator.execute_line("41 + 1"));
    assert!(!evaluator.execute_line("1 +"));
    assert!(!evaluator.execute_line(""));
    assert!(!evaluator.execute_line("// only a comment"));
    assert_eq!(evaluator.last_value, Some(Value::Integer(42)));
    assert!(evaluator.errors.is_empty());
}

#[test]
fn a_program_runs_statement_by_statement() {
    let mut ast = Ast::new();
    let mut parser = Parser::new(tokenize("let a = 2; let b = a ** 3; a = b - a; a * b", &Host));
    while let Some(statement) = parser.next_statement() {
        ast.add_statement(statement);
    }
    assert_eq!(ast.statements.len(), 4);
    let mut evaluator = ASTEvaluator::new(Host);
    ast.visit(&mut evaluator);
    assert!(evaluator.errors.is_empty());
    assert_eq!(evaluator.last_value, Some(Value::Integer(48)));
    assert_eq!(evaluator.symbol_table.get_value("a"), Ok(Value::Integer(6)));
}

#[test]
fn operators_apply_to_values() {
    assert_eq!(
        apply_binary(ASTBinaryOperatorKind::Plus, &Value::Integer(2), &Value::Integer(3), &Host),
        Ok(Value::Integer(5))
    );
    assert_eq!(
        apply_binary(ASTBinaryOperatorKind::LogicalAnd, &Value::Integer(2), &text(""), &Host),
        Ok(Value::Boolean(false))
    );
    assert_eq!(
        apply_binary(ASTBinaryOperatorKind::LogicalOr, &Value::Integer(0), &text("a"), &Host),
        Ok(Value::Boolean(true))
    );
    assert_eq!(
        apply_binary(ASTBinaryOperatorKind::Less, &float(1.0), &float(f64::NAN), &Host),
        Ok(Value::Boolean(false))
    );
    assert_eq!(
        apply_binary(ASTBinaryOperatorKind::GreaterEqual, &float(1.0), &float(f64::NAN), &Host),
        Ok(Value::Boolean(true))
    );
    assert_eq!(apply_unary(ASTUnaryOperatorKind::Minus, float(1.5)), Ok(float(-1.5)));
    assert_eq!(apply_unary(ASTUnaryOperatorKind::LogicalNot, float(f64::NAN)), Ok(Value::Boolean(false)));
}
