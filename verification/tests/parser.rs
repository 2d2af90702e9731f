use arc_lang::ast::float::{FloatBits, FloatOperation, FloatUnit};
use arc_lang::ast::lexer::{tokenize, TextSpan, Token, TokenKind};
use arc_lang::ast::parser::Parser;
use arc_lang::ast::types::Value;
use arc_lang::ast::{
    ASTAssignment, ASTBinaryOperator, ASTBinaryOperatorKind, ASTExpression, ASTExpressionKind,
    ASTFunctionCallExpression, ASTIdentifierExpression, ASTStatement, ASTStatementKind,
    ASTUnaryOperator, ASTUnaryOperatorKind, ASTVariableDeclaration,
};

struct Host;

impl FloatUnit for Host {
    fn parse(&self, literal: &str) -> FloatBits {
        FloatBits(literal.parse::<f64>().unwrap_or(0.0).to_bits())
    }

    fn from_integer(&self, value: i64) -> FloatBits {
        FloatBits((value as f64).to_bits())
    }

    fn truncate(&self, value: FloatBits) -> i64 {
        f64::from_bits(value.0) as i64
    }

    fn render(&self, value: FloatBits) -> String {
        f64::from_bits(value.0).to_string()
    }

    fn compute(&self, operation: FloatOperation, left: FloatBits, right: FloatBits) -> FloatBits {
        let a = f64::from_bits(left.0);
        let b = f64::from_bits(right.0);
        let r = match operation {
            FloatOperation::Add => a + b,
            FloatOperation::Subtract => a - b,
            FloatOperation::Multiply => a * b,
            FloatOperation::Divide => a / b,
            FloatOperation::Remainder => a % b,
            FloatOperation::Power => a.powf(b),
        };
        FloatBits(r.to_bits())
    }
}

fn parse(input: &str) -> Option<ASTStatement> {
    Parser::new(tokenize(input, &Host)).next_statement()
}

/// The shape of an expression, written with a pair of parentheses for each operator.
fn shape(expression: &ASTExpression) -> String {
    match &expression.kind {
        ASTExpressionKind::Number(number) => match &number.value {
            Value::Integer(i) => i.to_string(),
            Value::Float(f) => format!("{:?}", f64::from_bits(f.0)),
            Value::Boolean(b) => b.to_string(),
            Value::String(s) => format!("{:?}", s),
        },
        ASTExpressionKind::Binary(binary) => format!(
            "({} {} {})",
            shape(&binary.left),
            binary.operator.token.span.literal,
            shape(&binary.right)
        ),
        ASTExpressionKind::Paranthesized(inner) => format!("[{}]", shape(&inner.expression)),
        ASTExpressionKind::Unary(unary) => {
            format!("({}{})", unary.operator.token.span.literal, shape(&unary.operand))
        }
        ASTExpressionKind::Identifier(identifier) => identifier.name.clone(),
        ASTExpressionKind::FunctionCall(call) => {
            let arguments: Vec<String> = call.arguments.iter().map(shape).collect();
            format!("{}({})", call.name, arguments.join(", "))
        }
    }
}

fn expression_shape(input: &str) -> String {
    match parse(input).unwrap().kind {
        ASTStatementKind::Expression(expression) => shape(&expression),
        _ => panic!("not an expression statement"),
    }
}

fn token(kind: TokenKind, start: usize, literal: &str) -> Token {
    Token::new(kind, TextSpan::new(start, start + literal.chars().count(), literal.to_string()))
}

#[test]
fn exponentiation_groups_to_the_right() {
    assert_eq!(expression_shape("2 ** 3 ** 2"), "(2 ** (3 ** 2))");
    assert_eq!(expression_shape("2 ** 3 ** 2 ** 1"), "(2 ** (3 ** (2 ** 1)))");
}

#[test]
fn other_operators_group_to_the_left() {
    assert_eq!(expression_shape("1 - 2 - 3"), "((1 - 2) - 3)");
    assert_eq!(expression_shape("8 / 4 / 2"), "((8 / 4) / 2)");
    assert_eq!(expression_shape("a && b && c"), "((a && b) && c)");
    assert_eq!(expression_shape("1 << 2 << 3"), "((1 << 2) << 3)");
    assert_eq!(expression_shape("a == b != c"), "((a == b) != c)");
}

#[test]
fn binding_powers_order_the_operators() {
    assert_eq!(
        expression_shape("a || b && c == d < e | f ^ g & h << i + j * k ** l"),
        "(a || (b && (c == (d < (e | (f ^ (g & (h << (i + (j * (k ** l)))))))))))"
    );
    assert_eq!(
        expression_shape("a ** b * c + d << e & f ^ g | h < i == j && k || l"),
        "(((((((((((a ** b) * c) + d) << e) & f) ^ g) | h) < i) == j) && k) || l)"
    );
    assert_eq!(expression_shape("1 + 2 * 3"), "(1 + (2 * 3))");
    assert_eq!(expression_shape("1 * 2 + 3"), "((1 * 2) + 3)");
    assert_eq!(expression_shape("1 + 2 % 3 - 4 / 5"), "((1 + (2 % 3)) - (4 / 5))");
    assert_eq!(expression_shape("1 < 2 == 3 >= 4"), "((1 < 2) == (3 >= 4))");
    assert_eq!(expression_shape("1 <= 2 > 3"), "((1 <= 2) > 3)");
    assert_eq!(expression_shape("1 >> 2 + 3"), "(1 >> (2 + 3))");
}

#[test]
fn parentheses_group() {
    assert_eq!(expression_shape("7 - (30 + 7) * 8 / 2"), "(7 - (([(30 + 7)] * 8) / 2))");
    assert_eq!(expression_shape("((1))"), "[[1]]");
    assert_eq!(expression_shape("(2 ** 3) ** 2"), "([(2 ** 3)] ** 2)");
}

#[test]
fn unary_operators_bind_tighter_than_binary_ones() {
    assert_eq!(expression_shape("-2 ** 2"), "((-2) ** 2)");
    assert_eq!(expression_shape("2 ** -1"), "(2 ** (-1))");
    assert_eq!(expression_shape("!a && b"), "((!a) && b)");
    assert_eq!(expression_shape("- - 1"), "(-(-1))");
    assert_eq!(expression_shape("+-!x"), "(+(-(!x)))");
    assert_eq!(expression_shape("1 - -1"), "(1 - (-1))");
    assert_eq!(expression_shape("!0"), "(!0)");
    assert_eq!(expression_shape("-(1 + 2)"), "(-[(1 + 2)])");
}

#[test]
fn literals_are_primaries() {
    assert_eq!(expression_shape("42"), "42");
    assert_eq!(expression_shape("2.5"), "2.5");
    assert_eq!(expression_shape("true"), "true");
    assert_eq!(expression_shape("false"), "false");
    assert_eq!(expression_shape("\"Arc\" + \" Compiler\""), "(\"Arc\" + \" Compiler\")");
    assert_eq!(expression_shape("5 > 2.5 && 10.0 == 10"), "((5 > 2.5) && (10.0 == 10))");
}

#[test]
fn an_identifier_before_a_parenthesis_is_a_call() {
    assert_eq!(expression_shape("print(1, x, 2 + 3)"), "print(1, x, (2 + 3))");
    assert_eq!(expression_shape("f()"), "f()");
    assert_eq!(expression_shape("f(g(1), (2))"), "f(g(1), [2])");
    assert_eq!(expression_shape("f (1)"), "f(1)");
    assert_eq!(expression_shape("f(1) + x"), "(f(1) + x)");
    assert_eq!(expression_shape("x"), "x");
}

#[test]
fn let_and_const_declare() {
    let declaration = parse("let x = 1 + 2").unwrap();
    assert_eq!(
        declaration,
        ASTStatement::variable_declaration(ASTVariableDeclaration::new(
            "x".to_string(),
            ASTExpression::binary(
                ASTBinaryOperator::new(
                    ASTBinaryOperatorKind::Plus,
                    token(TokenKind::Plus, 10, "+")
                ),
                ASTExpression::number(1),
                ASTExpression::number(2),
            ),
            true,
        ))
    );
    match parse("const pi = 3.14").unwrap().kind {
        ASTStatementKind::VariableDeclaration(declaration) => {
            assert_eq!(declaration.name, "pi");
            assert!(!declaration.is_mutable);
            assert_eq!(
                *declaration.initializer,
                ASTExpression::float(FloatBits(3.14f64.to_bits()))
            );
        }
        _ => panic!("not a declaration"),
    }
}

#[test]
fn an_identifier_before_an_equal_sign_is_assigned() {
    assert_eq!(
        parse("x = 6").unwrap(),
        ASTStatement::assignment(ASTAssignment::new("x".to_string(), ASTExpression::number(6)))
    );
    assert_eq!(expression_shape("x == 6"), "(x == 6)");
    match parse("x = y = 2") {
        Some(statement) => match statement.kind {
            ASTStatementKind::Assignment(assignment) => {
                assert_eq!(assignment.name, "x");
                assert_eq!(*assignment.value, ASTExpression::identifier("y".to_string()));
            }
            _ => panic!("not an assignment"),
        },
        None => panic!("no statement"),
    }
}

#[test]
fn operators_keep_their_tokens() {
    let statement = parse("-a").unwrap();
    assert_eq!(
        statement,
        ASTStatement::expression(ASTExpression::unary(
            ASTUnaryOperator::new(ASTUnaryOperatorKind::Minus, token(TokenKind::Minus, 0, "-")),
            ASTExpression::identifier("a".to_string()),
        ))
    );
    let call = parse("f(true)").unwrap();
    assert_eq!(
        call,
        ASTStatement::new(ASTStatementKind::Expression(ASTExpression::new(
            ASTExpressionKind::FunctionCall(ASTFunctionCallExpression::new(
                "f".to_string(),
                vec![ASTExpression::literal(Value::Boolean(true))],
            ))
        )))
    );
    assert_eq!(
        parse("\"s\"").unwrap(),
        ASTStatement::expression(ASTExpression::string("s".to_string()))
    );
    assert_eq!(
        parse("(b)").unwrap(),
        ASTStatement::expression(ASTExpression::paranthesized(ASTExpression::new(
            ASTExpressionKind::Identifier(ASTIdentifierExpression::new("b".to_string()))
        )))
    );
    assert_eq!(
        parse("false").unwrap(),
        ASTStatement::expression(ASTExpression::boolean(false))
    );
}

#[test]
fn malformed_input_is_no_statement() {
    assert!(parse("").is_none());
    assert!(parse("   ").is_none());
    assert!(parse("// nothing").is_none());
    assert!(parse("1 +").is_none());
    assert!(parse("(1 + 2").is_none());
    assert!(parse(")").is_none());
    assert!(parse("let = 5").is_none());
    assert!(parse("let x 5").is_none());
    assert!(parse("let x =").is_none());
    assert!(parse("const 1 = 2").is_none());
    assert!(parse("x =").is_none());
    assert!(parse("f(1,").is_none());
    assert!(parse("f(1 2)").is_none());
    assert!(parse("f(,)").is_none());
    assert!(parse("f(1,)").is_none());
    assert!(parse("@").is_none());
    assert!(parse("1 + @").is_none());
    assert!(parse("* 2").is_none());
    assert!(parse("-").is_none());
    assert!(parse("{").is_none());
}

#[test]
fn a_failed_call_leaves_the_cursor() {
    let mut parser = Parser::new(tokenize("1 + ; 2", &Host));
    assert!(parser.next_statement().is_none());
    assert_eq!(parser.current, 0);
    assert!(parser.next_statement().is_none());
}

#[test]
fn statements_follow_one_another() {
    let mut parser = Parser::new(tokenize("let x = 1; x + 2; print(x) y", &Host));
    assert!(matches!(
        parser.next_statement().unwrap().kind,
        ASTStatementKind::VariableDeclaration(_)
    ));
    assert_eq!(parser.current, 5);
    assert!(matches!(parser.next_statement().unwrap().kind, ASTStatementKind::Expression(_)));
    assert!(matches!(parser.next_statement().unwrap().kind, ASTStatementKind::Expression(_)));
    match parser.next_statement().unwrap().kind {
        ASTStatementKind::Expression(expression) => assert_eq!(shape(&expression), "y"),
        _ => panic!("not an expression"),
    }
    assert!(parser.next_statement().is_none());
    assert!(parser.next_statement().is_none());
}

#[test]
fn an_expression_ends_where_no_operator_follows() {
    let mut parser = Parser::new(tokenize("1 2", &Host));
    assert_eq!(
        parser.next_statement().unwrap(),
        ASTStatement::expression(ASTExpression::number(1))
    );
    assert_eq!(
        parser.next_statement().unwrap(),
        ASTStatement::expression(ASTExpression::number(2))
    );
    assert!(parser.next_statement().is_none());
}

#[test]
fn whitespace_and_comments_are_dropped() {
    let parser = Parser::new(tokenize(" 1 /* two */ + // three\n 4 ", &Host));
    let kinds: Vec<&TokenKind> = parser.tokens.iter().map(|t| &t.kind).collect();
    assert_eq!(
        kinds,
        vec![&TokenKind::Number(1), &TokenKind::Plus, &TokenKind::Number(4), &TokenKind::EOF]
    );
    assert_eq!(expression_shape(" 1 /* two */ + // three\n 4 "), "(1 + 4)");
}

#[test]
fn precedence_is_a_table() {
    let table = [
        (ASTBinaryOperatorKind::LogicalOr, 1),
        (ASTBinaryOperatorKind::LogicalAnd, 2),
        (ASTBinaryOperatorKind::Equal, 3),
        (ASTBinaryOperatorKind::NotEqual, 3),
        (ASTBinaryOperatorKind::Less, 4),
        (ASTBinaryOperatorKind::Greater, 4),
        (ASTBinaryOperatorKind::LessEqual, 4),
        (ASTBinaryOperatorKind::GreaterEqual, 4),
        (ASTBinaryOperatorKind::BitwiseOr, 5),
        (ASTBinaryOperatorKind::BitwiseXor, 6),
        (ASTBinaryOperatorKind::BitwiseAnd, 7),
        (ASTBinaryOperatorKind::LeftShift, 8),
        (ASTBinaryOperatorKind::RightShift, 8),
        (ASTBinaryOperatorKind::Plus, 9),
        (ASTBinaryOperatorKind::Minus, 9),
        (ASTBinaryOperatorKind::Multiply, 10),
        (ASTBinaryOperatorKind::Divide, 10),
        (ASTBinaryOperatorKind::Modulo, 10),
        (ASTBinaryOperatorKind::Exponentiation, 11),
    ];
    for (kind, power) in table {
        let operator = ASTBinaryOperator::new(kind, token(TokenKind::Bad, 0, "?"));
        assert_eq!(operator.precedence(), power);
    }
}
